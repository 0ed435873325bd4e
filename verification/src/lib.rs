//! Conversion of decoded RGBA images into mip-mapped, block-compressed
//! `BIM` texture containers.
//!
//! The pipeline is: choose format and material kind from the file name
//! ([`text`], [`bim`]), plan the mip chain ([`mipmap`]), downsample each
//! level ([`resize`]), pad it to whole 4x4 blocks ([`padding`]), compress
//! it ([`codec`], [`bc7e`]), serialise header, level records and payloads
//! ([`bim`], [`le`], [`container`]) and frame the container for the
//! whole-file compressor ([`kraken`]). [`convert`] ties the steps
//! together; [`error`] names what can go wrong.
//!
//! Two codecs are native libraries that this crate does not link: the BC7
//! block encoder and the whole-file compressor. The crate prepares what
//! they are given and takes what they return.

pub mod bc7e;
pub mod bim;
pub mod codec;
pub mod container;
pub mod convert;
pub mod error;
pub mod kraken;
pub mod le;
pub mod mipmap;
pub mod padding;
pub mod resize;
pub mod text;
pub mod utilities;
