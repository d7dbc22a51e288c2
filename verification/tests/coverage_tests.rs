use hips_atlas::cell::HEALPixCell;
use hips_atlas::coo_system::{CooSpace, CooSystem, Formatter, FrameChange, NUM_COOSYSTEM};
use hips_atlas::coverage::{overlap, HEALPixCoverage};
use hips_atlas::config::{HiPSConfig, HiPSProperties};
use hips_atlas::shader::{fragment_kind, get_raster_shader, get_raytracer_shader, FragmentKind};

#[test]
fn cells_overlap_along_a_branch() {
    let c = HEALPixCell(3, 100);
    assert!(overlap(&c, &c));
    assert!(overlap(&c, &c.parent()));
    assert!(overlap(&c.parent(), &c));
    assert!(overlap(&c, &c.subdivide()[2]));
    assert!(overlap(&HEALPixCell(0, 1), &c));
    assert!(!overlap(&c, &HEALPixCell(3, 101)));
    assert!(!overlap(&c, &HEALPixCell(2, 26)));
    assert!(!overlap(&c, &HEALPixCell(4, 404)));
}

#[test]
fn coverage_intersects_the_cells_on_its_branches() {
    let coverage = HEALPixCoverage::from_cells(vec![HEALPixCell(3, 100), HEALPixCell(1, 40)]).unwrap();
    assert_eq!(coverage.len(), 2);
    assert!(coverage.intersects_cell(&HEALPixCell(3, 100)));
    assert!(coverage.intersects_cell(&HEALPixCell(5, 1600)));
    assert!(coverage.intersects_cell(&HEALPixCell(2, 25)));
    assert!(coverage.intersects_cell(&HEALPixCell(0, 10)));
    assert!(coverage.intersects_cell(&HEALPixCell(2, 163)));
    assert!(!coverage.intersects_cell(&HEALPixCell(3, 101)));
    assert!(!coverage.intersects_cell(&HEALPixCell(0, 5)));
    let empty = HEALPixCoverage::from_cells(vec![]).unwrap();
    assert!(!empty.intersects_cell(&HEALPixCell(0, 0)));
}

#[test]
fn coverage_takes_cells_of_the_pixelization_only() {
    assert!(HEALPixCoverage::from_cells(vec![HEALPixCell(3, 100), HEALPixCell(3, 768)]).is_none());
    assert!(HEALPixCoverage::from_cells(vec![HEALPixCell(30, 0)]).is_none());
}

#[test]
fn frame_changes() {
    assert_eq!(CooSystem::GAL.to(CooSystem::ICRS), FrameChange::GalToIcrs);
    assert_eq!(CooSystem::ICRS.to(CooSystem::GAL), FrameChange::IcrsToGal);
    assert_eq!(CooSystem::ICRS.to(CooSystem::ICRS), FrameChange::Identity);
    assert_eq!(CooSystem::GAL.to(CooSystem::GAL), FrameChange::Identity);
    assert_eq!(NUM_COOSYSTEM, 2);
    assert_ne!(CooSpace::Screen, CooSpace::NDC);
    assert_ne!(Formatter::Sexagesimal, Formatter::Decimal);
}

fn config(format: &str, bitpix: i32) -> HiPSConfig {
    let properties = HiPSProperties {
        url: String::from("https://example/survey"),
        creator_did: String::from("CDS/P/X"),
        format: String::from(format),
        bitpix,
        max_order: 9,
        min_order: 0,
        tile_size: 256,
        frame: CooSystem::GAL,
    };
    HiPSConfig::new(&properties).unwrap()
}

#[test]
fn shaders_of_the_raster_path() {
    let frag = |native, format, bitpix| {
        let shader = get_raster_shader(native, &config(format, bitpix));
        assert_eq!(shader.vert, "hips_rasterizer_raster.vert");
        shader.frag
    };
    assert_eq!(frag(true, "jpeg", 0), "hips_rasterizer_color.frag");
    assert_eq!(frag(true, "png", 0), "hips_rasterizer_color.frag");
    assert_eq!(frag(false, "jpeg", 0), "hips_rasterizer_color_to_colormap.frag");
    assert_eq!(frag(true, "fits", 8), "hips_rasterizer_grayscale_to_colormap_u.frag");
    assert_eq!(frag(false, "fits", 16), "hips_rasterizer_grayscale_to_colormap_i.frag");
    assert_eq!(frag(false, "fits", 32), "hips_rasterizer_grayscale_to_colormap_i.frag");
    assert_eq!(frag(true, "fits", -32), "hips_rasterizer_grayscale_to_colormap.frag");
}

#[test]
fn shaders_of_the_raytracing_path() {
    let frag = |native, format, bitpix| {
        let shader = get_raytracer_shader(native, &config(format, bitpix));
        assert_eq!(shader.vert, "hips_raytracer_raytracer.vert");
        shader.frag
    };
    assert_eq!(frag(true, "jpeg", 0), "hips_raytracer_color.frag");
    assert_eq!(frag(false, "png", 0), "hips_raytracer_color_to_colormap.frag");
    assert_eq!(frag(false, "fits", 8), "hips_raytracer_grayscale_to_colormap_u.frag");
    assert_eq!(frag(true, "fits", 16), "hips_raytracer_grayscale_to_colormap_i.frag");
    assert_eq!(frag(false, "fits", -32), "hips_raytracer_grayscale_to_colormap.frag");
    assert_eq!(fragment_kind(true, &config("png", 0)), FragmentKind::Color);
    assert_eq!(fragment_kind(false, &config("fits", -32)), FragmentKind::GrayscaleToColormap);
}
