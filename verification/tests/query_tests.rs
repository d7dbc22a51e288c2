use hips_atlas::cell::HEALPixCell;
use hips_atlas::config::{HiPSConfig, HiPSProperties};
use hips_atlas::coo_system::CooSystem;
use hips_atlas::format::{ChannelType, ImageExt};
use hips_atlas::query::{Allsky, MOCOptions, Moc, PixelMetadata, Query, Tile};

fn config(format: &str, bitpix: i32) -> HiPSConfig {
    let properties = HiPSProperties {
        url: String::from("https://example/survey"),
        creator_did: String::from("CDS/P/X"),
        format: String::from(format),
        bitpix,
        max_order: 9,
        min_order: 0,
        tile_size: 256,
        frame: CooSystem::ICRS,
    };
    HiPSConfig::new(&properties).unwrap()
}

#[test]
fn tile_url_of_the_literal_example() {
    let cfg = config("fits", -32);
    let tile = Tile::new(&HEALPixCell(3, 257), None, &cfg);
    assert_eq!(tile.url, "https://example/survey/Norder3/Dir0/Npix257.fits");
    assert_eq!(tile.id, "CDS/P/X3_257_0fits");
    assert_eq!(tile.id(), "CDS/P/X3_257_0fits");
    assert_eq!(tile.cell, HEALPixCell(3, 257));
    assert_eq!(tile.channel, None);
    assert_eq!(tile.hips_cdid, "CDS/P/X");
    assert_eq!(tile.format.ext, ImageExt::Fits);
    assert_eq!(tile.format.channel, ChannelType::R32F);
}

#[test]
fn tile_url_names_the_directory_of_ten_thousand() {
    let cfg = config("jpeg", 0);
    let url = |idx| Tile::new(&HEALPixCell(8, idx), None, &cfg).url;
    assert_eq!(url(0), "https://example/survey/Norder8/Dir0/Npix0.jpg");
    assert_eq!(url(9999), "https://example/survey/Norder8/Dir0/Npix9999.jpg");
    assert_eq!(url(10000), "https://example/survey/Norder8/Dir10000/Npix10000.jpg");
    assert_eq!(url(123456), "https://example/survey/Norder8/Dir120000/Npix123456.jpg");
}

#[test]
fn tile_url_names_the_channel_after_the_first() {
    let cfg = config("png", 0);
    let c = HEALPixCell(3, 257);
    assert_eq!(Tile::new(&c, Some(0), &cfg).url, "https://example/survey/Norder3/Dir0/Npix257.png");
    assert_eq!(Tile::new(&c, Some(1), &cfg).url, "https://example/survey/Norder3/Dir0/Npix257_1.png");
    assert_eq!(Tile::new(&c, Some(42), &cfg).url, "https://example/survey/Norder3/Dir0/Npix257_42.png");
    assert_eq!(Tile::new(&c, Some(42), &cfg).id, "CDS/P/X3_257_42png");
    assert_eq!(Tile::new(&c, Some(0), &cfg).id, "CDS/P/X3_257_0png");
}

#[test]
fn tile_id_is_the_same_for_the_same_query() {
    let cfg = config("png", 0);
    let a = Tile::new(&HEALPixCell(5, 77), Some(3), &cfg);
    let b = Tile::new(&HEALPixCell(5, 77), Some(3), &cfg);
    assert_eq!(a.id, b.id);
    assert_eq!(a.url, b.url);
    assert!(a == b);
}

#[test]
fn tile_ids_tell_tiles_apart() {
    let cfg = config("png", 0);
    let mut seen = std::collections::HashSet::new();
    for depth in 0..4u8 {
        for idx in 0..(12u64 << (2 * depth)) {
            for channel in [None, Some(1), Some(2), Some(12), Some(23)] {
                assert!(seen.insert(Tile::new(&HEALPixCell(depth, idx), channel, &cfg).id));
            }
        }
    }
    let mut seen = std::collections::HashSet::new();
    for depth in 0..30u8 {
        assert!(seen.insert(Tile::new(&HEALPixCell(depth, 5), Some(1), &cfg).id));
    }
}

#[test]
fn tile_ids_do_not_run_their_numbers_together() {
    let cfg = config("png", 0);
    // depth 1, index 23 against depth 12, index 3
    let a = Tile::new(&HEALPixCell(1, 23), None, &cfg);
    let b = Tile::new(&HEALPixCell(12, 3), None, &cfg);
    assert_eq!(a.id, "CDS/P/X1_23_0png");
    assert_eq!(b.id, "CDS/P/X12_3_0png");
    assert_ne!(a.id, b.id);
    assert_ne!(a.url, b.url);
    // index 1, channel 23 against index 12, channel 3
    let a = Tile::new(&HEALPixCell(2, 1), Some(23), &cfg);
    let b = Tile::new(&HEALPixCell(2, 12), Some(3), &cfg);
    assert_eq!(a.id, "CDS/P/X2_1_23png");
    assert_eq!(b.id, "CDS/P/X2_12_3png");
    assert_ne!(a.url, b.url);
    // no channel is the channel 0
    let a = Tile::new(&HEALPixCell(2, 1), None, &cfg);
    let b = Tile::new(&HEALPixCell(2, 1), Some(0), &cfg);
    assert_eq!(a.id, b.id);
    assert_eq!(a.url, b.url);
}

#[test]
fn allsky_query() {
    let cfg = config("fits", 16);
    let allsky = Allsky::new(&cfg, None);
    assert_eq!(allsky.url, "https://example/survey/Norder3/Allsky.fits");
    assert_eq!(allsky.id, "CDS/P/XAllskyfits0");
    assert_eq!(allsky.id(), "CDS/P/XAllskyfits0");
    assert_eq!(allsky.tile_size, 256);
    assert_eq!(allsky.texture_size, 512);
    assert_eq!(allsky.channel, None);
    assert_eq!(allsky.hips_cdid, "CDS/P/X");
    let allsky = Allsky::new(&cfg, Some(7));
    assert_eq!(allsky.url, "https://example/survey/Norder3/Allsky_7.fits");
    assert_eq!(allsky.id, "CDS/P/XAllskyfits7");
}

#[test]
fn pixel_metadata_query() {
    let cfg = config("png", 0);
    let query = PixelMetadata::new(&cfg);
    assert_eq!(query.url, "https://example/survey/Norder3/Allsky.png");
    assert_eq!(query.id, "CDS/P/XAllskypng");
    assert_eq!(query.id(), "CDS/P/XAllskypng");
    assert_eq!(query.hips_cdid, "CDS/P/X");
}

#[test]
fn coverage_query_is_known_under_its_address() {
    let params = MOCOptions { uuid: String::from("moc"), perimeter: true, filled: false, edges: false };
    let moc = Moc::new(String::from("https://example/survey/Moc.fits"), String::from("CDS/P/X"), params);
    assert_eq!(moc.id(), "https://example/survey/Moc.fits");
    assert_eq!(moc.url, "https://example/survey/Moc.fits");
    assert_eq!(moc.hips_cdid, "CDS/P/X");
    assert!(moc.params.perimeter);
}
