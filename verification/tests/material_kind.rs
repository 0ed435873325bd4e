use bimage::bim::{TextureFormat, TextureMaterialKind};
use bimage::text::stripped_file_name;

#[test]
fn test_get_texture_material_kind() {
    assert_eq!(
        TextureMaterialKind::from_filename(
            "symbols_arrow_03a_local.tga$bc7$streamed$mtlkind=decalnormal.png".into(),
            "symbols_arrow_03a_local".into(),
            TextureFormat::FmtBc7
        ),
        TextureMaterialKind::TmkDecalnormal
    );
    assert_eq!(
        TextureMaterialKind::from_filename(
            "glass_textured_orange_n.tga$bc5$streamed.png".into(),
            "glass_textured_orange_n".into(),
            TextureFormat::FmtBc5
        ),
        TextureMaterialKind::TmkNormal
    );
    assert_eq!(
        TextureMaterialKind::from_filename(
            "asphalt_g.tga$bc4$streamed$mtlkind=heightmap.png".into(),
            "asphalt_g".into(),
            TextureFormat::FmtBc4
        ),
        TextureMaterialKind::TmkHeightmap
    );
    assert_eq!(
        TextureMaterialKind::from_filename(
            "hud_demon_icon_ability_quantumorb.tga$bc3$streamed$mtlkind=particle.png".into(),
            "hud_demon_icon_ability_quantumorb".into(),
            TextureFormat::FmtBc3
        ),
        TextureMaterialKind::TmkParticle
    );
    assert_eq!(
        TextureMaterialKind::from_filename("test.png".into(), "test".into(), TextureFormat::FmtBc1Srgb),
        TextureMaterialKind::TmkAlbedo
    );
}

fn kind_of(file_name: &str, format: TextureFormat) -> TextureMaterialKind {
    TextureMaterialKind::from_filename(file_name.to_string(), stripped_file_name(file_name), format)
}

#[test]
fn material_kind_tags() {
    let f = TextureFormat::FmtBc7;
    assert_eq!(kind_of("a.tga$mtlkind=ui.png", f), TextureMaterialKind::TmkUi);
    assert_eq!(kind_of("a.tga$mtlkind=decalnormal.png", f), TextureMaterialKind::TmkDecalnormal);
    assert_eq!(kind_of("a.tga$mtlkind=decalalbedo.png", f), TextureMaterialKind::TmkDecalalbedo);
    assert_eq!(kind_of("a.tga$mtlkind=decalspecular.png", f), TextureMaterialKind::TmkDecalspecular);
    assert_eq!(kind_of("a.tga$mtlkind=particle.png", f), TextureMaterialKind::TmkParticle);
    assert_eq!(kind_of("a.tga$mtlkind=heightmap.png", f), TextureMaterialKind::TmkHeightmap);
}

#[test]
fn material_kind_suffixes() {
    let f = TextureFormat::FmtBc3;
    assert_eq!(kind_of("wall_n.tga", f), TextureMaterialKind::TmkNormal);
    assert_eq!(kind_of("wall_s.tga", f), TextureMaterialKind::TmkSpecular);
    assert_eq!(kind_of("wall_g.tga", f), TextureMaterialKind::TmkSmoothness);
    assert_eq!(kind_of("wall_e.tga", f), TextureMaterialKind::TmkBloommask);
    assert_eq!(kind_of("wall_h.tga", f), TextureMaterialKind::TmkHeightmap);
    assert_eq!(kind_of("wall_sss.tga", f), TextureMaterialKind::TmkSssmask);
    assert_eq!(kind_of("wall.tga", f), TextureMaterialKind::TmkNone);
    // `_Normal` counts at the end of the stripped name, as `_n` does.
    assert_eq!(kind_of("wall_Normal.png", TextureFormat::FmtBc5), TextureMaterialKind::TmkNormal);
    assert_eq!(kind_of("wall_Normal.tga$bc3.png", f), TextureMaterialKind::TmkNormal);
    assert_eq!(
        TextureMaterialKind::from_filename("wall_Normal.png".into(), "wall_Normal".into(), f),
        TextureMaterialKind::TmkNormal
    );
    // The end of the whole file name plays no part.
    assert_eq!(
        TextureMaterialKind::from_filename("wall_Normal".into(), "wall".into(), f),
        TextureMaterialKind::TmkNone
    );
}

#[test]
fn material_kind_precedence() {
    // A tag wins over a suffix, a suffix over the format.
    assert_eq!(
        kind_of("wall_n.tga$mtlkind=ui.png", TextureFormat::FmtBc1Srgb),
        TextureMaterialKind::TmkUi
    );
    assert_eq!(kind_of("wall_s.png", TextureFormat::FmtBc1Srgb), TextureMaterialKind::TmkSpecular);
    assert_eq!(kind_of("wall.png", TextureFormat::FmtBc1Srgb), TextureMaterialKind::TmkAlbedo);
    // `$mtlkind=ui` is tested before `$mtlkind=decalnormal`.
    assert_eq!(
        kind_of("a$mtlkind=decalnormal$mtlkind=ui", TextureFormat::FmtBc7),
        TextureMaterialKind::TmkUi
    );
}

#[test]
fn material_kind_is_a_function_of_the_name() {
    let name = "glass_textured_orange_n.tga$bc5$streamed.png";
    let first = kind_of(name, TextureFormat::FmtBc5);
    let second = kind_of(name, TextureFormat::FmtBc5);
    assert_eq!(first, second);
    assert_eq!(first, TextureMaterialKind::TmkNormal);
    assert_eq!(
        kind_of("x$bc7$mtlkind=decalnormal.png", TextureFormat::FmtBc7),
        TextureMaterialKind::TmkDecalnormal
    );
}

#[test]
fn format_from_file_name() {
    let pick = |name: &str| TextureFormat::from_filename(name, &stripped_file_name(name));
    assert_eq!(pick("a.tga$bc7$streamed.png"), TextureFormat::FmtBc7);
    assert_eq!(pick("a.tga$bc5.png"), TextureFormat::FmtBc5);
    assert_eq!(pick("a.tga$bc4.png"), TextureFormat::FmtBc4);
    assert_eq!(pick("a.tga$bc3.png"), TextureFormat::FmtBc3);
    assert_eq!(pick("a.tga$alpha.png"), TextureFormat::FmtAlpha);
    assert_eq!(pick("a_n.png"), TextureFormat::FmtBc5);
    assert_eq!(pick("a_Normal.png"), TextureFormat::FmtBc5);
    assert_eq!(pick("a.png"), TextureFormat::FmtBc1Srgb);
    // The first tag in the order bc7, bc5, bc4, bc3, alpha wins.
    assert_eq!(pick("a$bc3$bc7.png"), TextureFormat::FmtBc7);
    assert_eq!(pick("a_n$bc4.png"), TextureFormat::FmtBc4);
}

#[test]
fn stripped_file_names() {
    assert_eq!(
        stripped_file_name("symbols_arrow_03a_local.tga$bc7$streamed$mtlkind=decalnormal.png"),
        "symbols_arrow_03a_local"
    );
    assert_eq!(stripped_file_name("test.png"), "test");
    assert_eq!(stripped_file_name("name$bc7.png"), "name");
    assert_eq!(stripped_file_name("plain"), "plain");
    assert_eq!(stripped_file_name(""), "");
    assert_eq!(stripped_file_name(".hidden"), "");
    assert_eq!(stripped_file_name("h\u{e9}llo_n.tga"), "h\u{e9}llo_n");
}

#[test]
fn format_and_kind_codes() {
    assert_eq!(TextureFormat::FmtNone.code(), 0);
    assert_eq!(TextureFormat::FmtAlpha.code(), 5);
    assert_eq!(TextureFormat::FmtBc3.code(), 11);
    assert_eq!(TextureFormat::FmtBc7.code(), 23);
    assert_eq!(TextureFormat::FmtBc4.code(), 24);
    assert_eq!(TextureFormat::FmtBc5.code(), 25);
    assert_eq!(TextureFormat::FmtBc1Srgb.code(), 33);
    assert_eq!(TextureFormat::FmtNextAvailable.code(), 0x37);
    assert_eq!(TextureMaterialKind::TmkNone.code(), 0);
    assert_eq!(TextureMaterialKind::TmkNormal.code(), 3);
    assert_eq!(TextureMaterialKind::TmkHeightmap.code(), 9);
    assert_eq!(TextureMaterialKind::TmkDecalnormal.code(), 11);
    assert_eq!(TextureMaterialKind::TmkUi.code(), 0x12);
    assert_eq!(TextureMaterialKind::TmkCount.code(), 0x17);
}

#[test]
fn block_sizes() {
    assert_eq!(TextureFormat::FmtBc1Srgb.block_size(), Some(8));
    assert_eq!(TextureFormat::FmtBc3.block_size(), Some(16));
    assert_eq!(TextureFormat::FmtBc4.block_size(), Some(8));
    assert_eq!(TextureFormat::FmtBc5.block_size(), Some(16));
    assert_eq!(TextureFormat::FmtBc7.block_size(), Some(16));
    assert_eq!(TextureFormat::FmtAlpha.block_size(), None);
    assert_eq!(TextureFormat::FmtRgba8.block_size(), None);
}

#[test]
fn texpresso_formats() {
    assert_eq!(TextureFormat::FmtBc1Srgb.as_texpresso_format(), Ok(texpresso::Format::Bc1));
    assert_eq!(TextureFormat::FmtBc3.as_texpresso_format(), Ok(texpresso::Format::Bc3));
    assert_eq!(TextureFormat::FmtBc4.as_texpresso_format(), Ok(texpresso::Format::Bc4));
    assert_eq!(TextureFormat::FmtBc5.as_texpresso_format(), Ok(texpresso::Format::Bc5));
    assert_eq!(
        TextureFormat::FmtBc7.as_texpresso_format(),
        Err("Unsupported target BCn format".to_string())
    );
    assert_eq!(
        TextureFormat::FmtAlpha.as_texpresso_format(),
        Err("Unsupported target BCn format".to_string())
    );
}
