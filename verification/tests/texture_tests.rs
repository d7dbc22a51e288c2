use hips_atlas::cell::HEALPixCell;
use hips_atlas::config::{HiPSConfig, HiPSProperties};
use hips_atlas::coo_system::CooSystem;
use hips_atlas::texture::{AppendError, HpxTexture2D, HpxTexture2DUniforms, TextureMetadata};
use hips_atlas::time::Time;

fn config(tile_size: i32) -> HiPSConfig {
    let properties = HiPSProperties {
        url: String::from("https://example/survey"),
        creator_did: String::from("CDS/P/X"),
        format: String::from("jpeg"),
        bitpix: 0,
        max_order: 9,
        min_order: 0,
        tile_size,
        frame: CooSystem::ICRS,
    };
    HiPSConfig::with_atlas(&properties, 2, 1).unwrap()
}

#[test]
fn new_entry_is_empty() {
    let texture = HpxTexture2D::new(&HEALPixCell(3, 5), 2, Time(10));
    assert!(!texture.is_full());
    assert_eq!(texture.idx(), 2);
    assert_eq!(*texture.cell(), HEALPixCell(3, 5));
    assert_eq!(texture.uniq(), 16 * 64 + 5);
    assert_eq!(texture.time_request(), Time(10));
    assert_eq!(texture.num_tiles_written(), 0);
    assert!(!texture.contains_tile(&HEALPixCell(4, 20)));
    assert_eq!(texture.start_time(Time(99)), Time(99));
}

#[test]
fn entry_fills_tile_by_tile() {
    let cfg = config(256);
    let cell = HEALPixCell(3, 5);
    let mut texture = HpxTexture2D::new(&cell, 0, Time(10));
    let tiles = cell.get_tile_cells(1);
    for (k, tile) in tiles.iter().enumerate().take(3) {
        texture.append(tile, &cfg, Time(100 + k as u64));
        assert!(!texture.is_full());
        assert_eq!(texture.num_tiles_written(), k + 1);
        assert!(texture.contains_tile(tile));
        assert!(!texture.contains_tile(&tiles[3]));
        // not full: the blending has not started, whatever the clock says
        assert_eq!(texture.start_time(Time(500)), Time(500));
        assert_eq!(texture.start_time(Time(501)), Time(501));
    }
    texture.append(&tiles[3], &cfg, Time(103));
    assert!(texture.is_full());
    assert_eq!(texture.num_tiles_written(), 4);
    assert_eq!(texture.start_time(Time(500)), Time(103));
    assert_eq!(texture.start_time(Time(501)), Time(103));
    // a full entry shows every tile
    assert!(texture.contains_tile(&HEALPixCell(9, 1)));
}

#[test]
fn tile_of_the_whole_entry_fills_it_at_once() {
    let cfg = config(512);
    assert_eq!(cfg.num_tiles_per_texture(), 1);
    let cell = HEALPixCell(3, 5);
    let mut texture = HpxTexture2D::new(&cell, 0, Time(10));
    texture.append(&cell, &cfg, Time(50));
    assert!(texture.is_full());
    assert_eq!(texture.num_tiles_written(), 1);
    assert_eq!(texture.start_time(Time(60)), Time(50));
}

#[test]
fn base_cell_tile_fills_an_entry_of_several_tiles() {
    let cfg = config(256);
    let cell = HEALPixCell(0, 7);
    let mut texture = HpxTexture2D::new(&cell, 0, Time(10));
    texture.append(&cell, &cfg, Time(50));
    assert!(texture.is_full());
    assert_eq!(texture.num_tiles_written(), 4);
}

#[test]
fn replace_resets_the_entry_in_place() {
    let cfg = config(256);
    let cell = HEALPixCell(3, 5);
    let mut texture = HpxTexture2D::new(&cell, 3, Time(10));
    for tile in cell.get_tile_cells(1) {
        texture.append(&tile, &cfg, Time(20));
    }
    assert!(texture.is_full());
    texture.replace(&HEALPixCell(4, 99), Time(30));
    assert!(!texture.is_full());
    assert_eq!(texture.idx(), 3);
    assert_eq!(*texture.cell(), HEALPixCell(4, 99));
    assert_eq!(texture.uniq(), 16 * 256 + 99);
    assert_eq!(texture.time_request(), Time(30));
    assert_eq!(texture.num_tiles_written(), 0);
    assert!(!texture.contains_tile(&HEALPixCell(4, 20)));
    assert_eq!(texture.start_time(Time(40)), Time(40));
    // and fills again
    texture.append(&HEALPixCell(5, 99 * 4 + 2), &cfg, Time(41));
    assert_eq!(texture.num_tiles_written(), 1);
    assert!(texture.contains_tile(&HEALPixCell(5, 99 * 4 + 2)));
}

#[test]
fn metadata_record() {
    let cfg = config(512);
    let cell = HEALPixCell(2, 9);
    let mut texture = HpxTexture2D::new(&cell, 1, Time(10));
    assert_eq!(
        texture.metadata(Time(70)),
        TextureMetadata { uniq: 16 * 16 + 9, texture_idx: 1, empty: true, start_time: Time(70) }
    );
    texture.append(&cell, &cfg, Time(50));
    assert_eq!(
        texture.metadata(Time(70)),
        TextureMetadata { uniq: 16 * 16 + 9, texture_idx: 1, empty: false, start_time: Time(50) }
    );
    let uniforms = HpxTexture2DUniforms::new(&texture, 4);
    assert_eq!(uniforms.name(), "textures_tiles[4].");
    assert_eq!(uniforms.uniform_name("uniq"), "textures_tiles[4].uniq");
    assert_eq!(uniforms.uniform_name("start_time"), "textures_tiles[4].start_time");
    assert_eq!(uniforms.metadata(Time(70)), texture.metadata(Time(70)));
    assert_eq!(HpxTexture2DUniforms::new(&texture, -1).name(), "textures_tiles[-1].");
    assert_eq!(HpxTexture2DUniforms::new(&texture, 120).name(), "textures_tiles[120].");
    assert_eq!(Time(5).as_millis(), 5);
}

#[test]
fn entries_compare_by_the_cell_they_are_bound_to() {
    let a = HpxTexture2D::new(&HEALPixCell(3, 5), 0, Time(10));
    let b = HpxTexture2D::new(&HEALPixCell(3, 5), 7, Time(99));
    let c = HpxTexture2D::new(&HEALPixCell(3, 6), 0, Time(10));
    let d = HpxTexture2D::new(&HEALPixCell(2, 100), 0, Time(10));
    assert!(a == b);
    assert!(a != c);
    assert!(a < c);
    assert!(d < a);
    assert_eq!(a.partial_cmp(&b), Some(std::cmp::Ordering::Equal));
    assert_eq!(c.partial_cmp(&a), Some(std::cmp::Ordering::Greater));
    assert_eq!(d.partial_cmp(&a), Some(std::cmp::Ordering::Less));
}

#[test]
fn full_entry_takes_no_tile_until_it_is_bound_anew() {
    let cfg = config(256);
    let cell = HEALPixCell(3, 5);
    let mut texture = HpxTexture2D::new(&cell, 0, Time(10));
    for (k, tile) in cell.get_tile_cells(1).iter().enumerate() {
        assert_eq!(texture.try_append(tile, &cfg, Time(20 + k as u64)), Ok(()));
        assert_eq!(texture.num_tiles_written(), k + 1);
        assert_eq!(texture.is_full(), k == 3);
    }
    // full: every further tile is refused, and nothing changes
    for tile in [HEALPixCell(4, 20), HEALPixCell(4, 99), cell] {
        assert_eq!(texture.try_append(&tile, &cfg, Time(50)), Err(AppendError::Full));
        assert!(texture.is_full());
        assert_eq!(texture.num_tiles_written(), 4);
        assert_eq!(texture.start_time(Time(60)), Time(23));
    }
    texture.replace(&cell, Time(70));
    assert_eq!(texture.try_append(&HEALPixCell(4, 20), &cfg, Time(71)), Ok(()));
    assert_eq!(texture.num_tiles_written(), 1);
}

#[test]
fn tile_received_before_is_refused() {
    let cfg = config(256);
    let cell = HEALPixCell(3, 5);
    let mut texture = HpxTexture2D::new(&cell, 0, Time(10));
    assert_eq!(texture.try_append(&HEALPixCell(4, 21), &cfg, Time(20)), Ok(()));
    assert_eq!(texture.try_append(&HEALPixCell(4, 21), &cfg, Time(21)), Err(AppendError::Duplicate));
    assert_eq!(texture.num_tiles_written(), 1);
    assert!(!texture.is_full());
    assert_eq!(texture.start_time(Time(30)), Time(30));
    assert_eq!(texture.try_append(&HEALPixCell(4, 22), &cfg, Time(22)), Ok(()));
    assert_eq!(texture.num_tiles_written(), 2);
}

#[test]
fn count_of_tiles_goes_up_by_one_for_any_new_tile() {
    let cfg = config(64);
    assert_eq!(cfg.num_tiles_per_texture(), 64);
    let cell = HEALPixCell(3, 5);
    let mut texture = HpxTexture2D::new(&cell, 0, Time(10));
    for k in 0..63u64 {
        texture.append(&HEALPixCell(9, 1000 + k), &cfg, Time(20));
        assert_eq!(texture.num_tiles_written(), k as usize + 1);
        assert!(!texture.is_full());
    }
    texture.append(&HEALPixCell(9, 5), &cfg, Time(21));
    assert_eq!(texture.num_tiles_written(), 64);
    assert!(texture.is_full());
    assert_eq!(texture.start_time(Time(30)), Time(21));
}
