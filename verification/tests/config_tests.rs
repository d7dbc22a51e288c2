use hips_atlas::config::{
    create_empty_tile, detect_format, format_for, is_power_of_two, ConfigError, ConfigUniforms,
    HiPSConfig, HiPSProperties, TileArrayBufferImage, TileConfig,
};
use hips_atlas::coo_system::CooSystem;
use hips_atlas::format::{ChannelType, ImageExt, ImageFormatType};

fn properties(format: &str, bitpix: i32, max_order: u8, tile_size: i32) -> HiPSProperties {
    HiPSProperties {
        url: String::from("https://example/survey"),
        creator_did: String::from("ivo://example/survey"),
        format: String::from(format),
        bitpix,
        max_order,
        min_order: 0,
        tile_size,
        frame: CooSystem::ICRS,
    }
}

#[test]
fn powers_of_two() {
    assert!(is_power_of_two(1));
    assert!(is_power_of_two(2));
    assert!(is_power_of_two(512));
    assert!(is_power_of_two(1 << 31));
    assert!(!is_power_of_two(0));
    assert!(!is_power_of_two(3));
    assert!(!is_power_of_two(513));
    assert!(!is_power_of_two(usize::MAX));
}

#[test]
fn fits_formats_by_bitpix() {
    let fits = |channel| Ok(ImageFormatType { ext: ImageExt::Fits, channel });
    assert_eq!(detect_format("fits", 8), fits(ChannelType::R8UI));
    assert_eq!(detect_format("fits", 16), fits(ChannelType::R16I));
    assert_eq!(detect_format("fits", 32), fits(ChannelType::R32I));
    assert_eq!(detect_format("fits", -32), fits(ChannelType::R32F));
    assert_eq!(detect_format("jpeg fits", -32), fits(ChannelType::R32F));
}

#[test]
fn color_formats() {
    let png = Ok(ImageFormatType { ext: ImageExt::Png, channel: ChannelType::RGBA8U });
    let jpg = Ok(ImageFormatType { ext: ImageExt::Jpeg, channel: ChannelType::RGB8U });
    assert_eq!(detect_format("png", 0), png);
    assert_eq!(detect_format("jpeg", 0), jpg);
    assert_eq!(detect_format("jpg", 0), jpg);
    assert_eq!(detect_format("png jpeg", 0), png);
    // a bitpix that no fits tile has leaves the other formats
    assert_eq!(detect_format("fits png", 64), png);
    assert_eq!(detect_format("fits jpeg", -64), jpg);
}

#[test]
fn format_errors() {
    assert_eq!(detect_format("fits", 64), Err(ConfigError::IncorrectBitpix));
    assert_eq!(detect_format("fits", 0), Err(ConfigError::IncorrectBitpix));
    assert_eq!(detect_format("webp", 8), Err(ConfigError::NoFormatRecognized));
    assert_eq!(detect_format("", 8), Err(ConfigError::NoFormatRecognized));
    assert_eq!(
        ConfigError::IncorrectBitpix.message(),
        "Fits tiles exists but the BITPIX is not correct in the property file"
    );
    assert_eq!(ConfigError::NoFormatRecognized.message(), "No format recognized");
}

#[test]
fn unknown_format_makes_no_configuration() {
    let p = properties("tiff", 8, 3, 256);
    assert!(p.is_valid());
    assert_eq!(HiPSConfig::new(&p).err(), Some(ConfigError::NoFormatRecognized));
    let p = properties("fits", 12, 3, 256);
    assert_eq!(HiPSConfig::new(&p).err(), Some(ConfigError::IncorrectBitpix));
}

#[test]
fn atlas_entry_of_two_by_two_tiles() {
    let p = properties("jpeg", 0, 9, 256);
    let cfg = HiPSConfig::new(&p).unwrap();
    assert_eq!(cfg.get_tile_size(), 256);
    assert_eq!(cfg.get_texture_size(), 512);
    assert_eq!(cfg.delta_depth(), 1);
    assert_eq!(cfg.num_tiles_per_texture(), 4);
    assert_eq!(cfg.max_depth(), 8);
    assert_eq!(cfg.get_max_depth_tile(), 9);
    assert_eq!(cfg.get_max_depth_texture(), 8);
    assert_eq!(cfg.get_min_depth_tile(), 0);
    assert_eq!(cfg.num_textures_by_side_slice(), 8);
    assert_eq!(cfg.num_textures_by_slice(), 64);
    assert_eq!(cfg.num_slices(), 3);
    assert_eq!(cfg.num_textures(), 192);
    assert_eq!(cfg.get_num_channels(), 3);
    assert_eq!(cfg.get_internal_format(), 6407);
    assert_eq!(cfg.get_ext_file(), "jpg");
    assert_eq!(cfg.get_root_url(), "https://example/survey");
    assert_eq!(cfg.get_creator_did(), "ivo://example/survey");
    assert_eq!(cfg.get_frame(), CooSystem::ICRS);
    assert_eq!(cfg.format(), cfg.get_format());
    assert!(!cfg.is_allsky);
    assert!(!cfg.tex_storing_integers);
    assert!(!cfg.tex_storing_unsigned_int);
}

#[test]
fn atlas_entry_sizes() {
    // tiles as large as an entry
    let cfg = HiPSConfig::new(&properties("png", 0, 5, 512)).unwrap();
    assert_eq!((cfg.get_texture_size(), cfg.delta_depth(), cfg.num_tiles_per_texture()), (512, 0, 1));
    assert_eq!(cfg.max_depth(), 5);
    // small tiles, deep survey: eight by eight tiles in an entry
    let cfg = HiPSConfig::new(&properties("png", 0, 9, 64)).unwrap();
    assert_eq!((cfg.get_texture_size(), cfg.delta_depth(), cfg.num_tiles_per_texture()), (512, 3, 64));
    assert_eq!(cfg.max_depth(), 6);
    // small tiles, shallow survey: the entry is as large as the whole of a base cell
    let cfg = HiPSConfig::new(&properties("png", 0, 1, 64)).unwrap();
    assert_eq!((cfg.get_texture_size(), cfg.delta_depth(), cfg.num_tiles_per_texture()), (128, 1, 4));
    assert_eq!(cfg.max_depth(), 0);
    let cfg = HiPSConfig::new(&properties("png", 0, 0, 64)).unwrap();
    assert_eq!((cfg.get_texture_size(), cfg.delta_depth(), cfg.num_tiles_per_texture()), (64, 0, 1));
    let cfg = HiPSConfig::new(&properties("png", 0, 29, 1)).unwrap();
    assert_eq!((cfg.get_texture_size(), cfg.delta_depth(), cfg.num_tiles_per_texture()), (512, 9, 1 << 18));
    assert_eq!(cfg.max_depth(), 20);
}

#[test]
fn atlas_layout_can_be_chosen() {
    let cfg = HiPSConfig::with_atlas(&properties("fits", 16, 9, 256), 2, 1).unwrap();
    assert_eq!(cfg.num_textures(), 4);
    assert_eq!(cfg.num_textures_by_side_slice(), 2);
    assert_eq!(cfg.num_textures_by_slice(), 4);
    assert_eq!(cfg.num_slices(), 1);
    assert!(cfg.tex_storing_integers);
    assert!(!cfg.tex_storing_unsigned_int);
    assert_eq!(cfg.get_internal_format(), 33331);
    let cfg = HiPSConfig::with_atlas(&properties("fits", 8, 9, 256), 3, 2).unwrap();
    assert_eq!(cfg.num_textures(), 18);
    assert!(cfg.tex_storing_unsigned_int);
    assert!(!cfg.tex_storing_integers);
}

#[test]
fn declarations_that_cannot_be_configured_from() {
    assert!(properties("png", 0, 9, 256).is_valid());
    assert!(properties("png", 0, 29, 1).is_valid());
    assert!(!properties("png", 0, 30, 256).is_valid());
    assert!(!properties("png", 0, 9, 0).is_valid());
    assert!(!properties("png", 0, 9, -256).is_valid());
    assert!(!properties("png", 0, 9, 300).is_valid());
    assert!(!properties("png", 0, 9, 1024).is_valid());
    let mut p = properties("png", 0, 3, 256);
    p.min_order = 30;
    assert!(!p.is_valid());
}

#[test]
fn shallowest_order_above_the_deepest() {
    let mut p = properties("png", 0, 3, 256);
    p.min_order = 4;
    assert!(p.is_valid());
    let cfg = HiPSConfig::new(&p).unwrap();
    assert_eq!(cfg.get_min_depth_tile(), 4);
    assert_eq!(cfg.get_max_depth_tile(), 3);
    assert_eq!(cfg.max_depth(), 2);
}

#[test]
fn format_for_an_extension() {
    let fits = |channel| Ok(ImageFormatType { ext: ImageExt::Fits, channel });
    assert_eq!(format_for(ImageExt::Fits, 8), fits(ChannelType::R8UI));
    assert_eq!(format_for(ImageExt::Fits, 16), fits(ChannelType::R16I));
    assert_eq!(format_for(ImageExt::Fits, 32), fits(ChannelType::R32I));
    assert_eq!(format_for(ImageExt::Fits, -32), fits(ChannelType::R32F));
    assert_eq!(format_for(ImageExt::Fits, 0), Err(ConfigError::IncorrectBitpix));
    assert_eq!(format_for(ImageExt::Fits, -64), Err(ConfigError::IncorrectBitpix));
    assert_eq!(format_for(ImageExt::Png, 77), Ok(ImageFormatType { ext: ImageExt::Png, channel: ChannelType::RGBA8U }));
    assert_eq!(format_for(ImageExt::Jpeg, 16), Ok(ImageFormatType { ext: ImageExt::Jpeg, channel: ChannelType::RGB8U }));
}

#[test]
fn configuration_takes_another_extension() {
    let mut cfg = HiPSConfig::new(&properties("jpeg fits", 16, 9, 64)).unwrap();
    assert_eq!(cfg.get_ext_file(), "fits");
    assert_eq!(cfg.set_image_ext(ImageExt::Jpeg), Ok(()));
    assert_eq!(cfg.get_ext_file(), "jpg");
    assert_eq!(cfg.get_format(), ImageFormatType { ext: ImageExt::Jpeg, channel: ChannelType::RGB8U });
    assert!(!cfg.tex_storing_integers);
    assert_eq!(cfg.get_blank_tile().len(), 64 * 64 * 3);
    assert!(matches!(cfg.get_blank_tile(), TileArrayBufferImage::U8(_)));
    // the layout of the atlas stays
    assert_eq!((cfg.get_tile_size(), cfg.get_texture_size(), cfg.delta_depth(), cfg.num_textures()), (64, 512, 3, 192));
    assert_eq!(cfg.set_image_ext(ImageExt::Fits), Ok(()));
    assert_eq!(cfg.get_format(), ImageFormatType { ext: ImageExt::Fits, channel: ChannelType::R16I });
    assert!(cfg.tex_storing_integers);
    assert!(matches!(cfg.get_blank_tile(), TileArrayBufferImage::I16(_)));
    // a survey without the bits per pixel of a fits tile keeps its format
    let mut cfg = HiPSConfig::new(&properties("png", 0, 9, 64)).unwrap();
    assert_eq!(cfg.set_image_ext(ImageExt::Fits), Err(ConfigError::IncorrectBitpix));
    assert_eq!(cfg.get_ext_file(), "png");
    assert_eq!(cfg.get_blank_tile().len(), 64 * 64 * 4);
}

#[test]
fn blank_tiles() {
    let jpg = ImageFormatType { ext: ImageExt::Jpeg, channel: ChannelType::RGB8U };
    match create_empty_tile(&jpg, 4) {
        TileArrayBufferImage::U8(v) => assert_eq!(v, vec![0u8; 48]),
        _ => panic!(),
    }
    let png = ImageFormatType { ext: ImageExt::Png, channel: ChannelType::RGBA8U };
    assert_eq!(create_empty_tile(&png, 8).len(), 256);
    let fits = |channel| ImageFormatType { ext: ImageExt::Fits, channel };
    assert!(matches!(create_empty_tile(&fits(ChannelType::R32F), 2), TileArrayBufferImage::F32(v) if v == vec![0u32; 4]));
    assert!(matches!(create_empty_tile(&fits(ChannelType::R16I), 2), TileArrayBufferImage::I16(v) if v == vec![0i16; 4]));
    assert!(matches!(create_empty_tile(&fits(ChannelType::R32I), 2), TileArrayBufferImage::I32(v) if v == vec![0i32; 4]));
    assert!(matches!(create_empty_tile(&fits(ChannelType::R8UI), 2), TileArrayBufferImage::U8(v) if v == vec![0u8; 4]));
    let tile_config = TileConfig::new(16, &jpg);
    assert_eq!(tile_config.get_tile_size(), 16);
    assert_eq!(tile_config.get_blank_tile().len(), 16 * 16 * 3);
    let cfg = HiPSConfig::new(&properties("fits", -32, 3, 64)).unwrap();
    assert_eq!(cfg.get_blank_tile().len(), 64 * 64);
    assert!(matches!(cfg.get_blank_tile(), TileArrayBufferImage::F32(_)));
}

#[test]
fn formats() {
    let jpg = ImageFormatType { ext: ImageExt::Jpeg, channel: ChannelType::RGB8U };
    let png = ImageFormatType { ext: ImageExt::Png, channel: ChannelType::RGBA8U };
    let fits = ImageFormatType { ext: ImageExt::Fits, channel: ChannelType::R32F };
    assert!(jpg.is_colored() && png.is_colored() && !fits.is_colored());
    assert_eq!((jpg.get_num_channels(), png.get_num_channels(), fits.get_num_channels()), (3, 4, 1));
    assert_eq!((jpg.get_ext_file(), png.get_ext_file(), fits.get_ext_file()), ("jpg", "png", "fits"));
    assert_eq!((jpg.get_internal_format(), png.get_internal_format(), fits.get_internal_format()), (6407, 6408, 33326));
    assert_eq!(ImageFormatType { ext: ImageExt::Fits, channel: ChannelType::R32I }.get_internal_format(), 33333);
    assert_eq!(ImageFormatType { ext: ImageExt::Fits, channel: ChannelType::R8UI }.get_internal_format(), 33330);
    assert!(ChannelType::RGB8U.has_opaque_default());
    assert!(!ChannelType::RGBA8U.has_opaque_default());
    assert!(!ChannelType::R32F.has_opaque_default());
    assert_eq!(jpg.get_channel(), ChannelType::RGB8U);
    assert!(!fits.is_i_internal_format() && !fits.is_u_internal_format());
}

#[test]
fn what_the_drawing_programs_are_told() {
    let cfg = HiPSConfig::new(&properties("fits", 16, 9, 256)).unwrap();
    assert_eq!(cfg.uniforms(), ConfigUniforms { max_depth: 8, tiles_by_side: 16, tex_storing_integers: 1 });
    let cfg = HiPSConfig::new(&properties("jpeg", 0, 9, 64)).unwrap();
    assert_eq!(cfg.uniforms(), ConfigUniforms { max_depth: 6, tiles_by_side: 64, tex_storing_integers: 0 });
    let cfg = HiPSConfig::new(&properties("fits", 8, 5, 512)).unwrap();
    assert_eq!(cfg.uniforms(), ConfigUniforms { max_depth: 5, tiles_by_side: 8, tex_storing_integers: 0 });
}
