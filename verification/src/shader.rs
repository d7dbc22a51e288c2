//! Which programs draw a survey, by the format of its tiles.
use crate::config::HiPSConfig;
use crate::format::ChannelType;
use vstd::prelude::*;

verus! {

/// How the color of a pixel is obtained from a texture.
#[derive(Clone, Copy, Debug, PartialEq, Eq, Structural, Hash)]
pub enum FragmentKind {
    /// The texture holds the color.
    Color,
    /// The texture holds a color that a color map replaces.
    ColorToColormap,
    /// The texture holds unsigned integers that a color map turns into colors.
    GrayscaleToColormapU,
    /// The texture holds signed integers that a color map turns into colors.
    GrayscaleToColormapI,
    /// The texture holds floats that a color map turns into colors.
    GrayscaleToColormap,
}

/// The two programs of a drawing path, by the names of their files.
#[derive(Clone, Copy, Debug)]
pub struct ShaderFiles {
    pub vert: &'static str,
    pub frag: &'static str,
}

/// How the color of a pixel is obtained for tiles of layout `channel`,
/// with the survey's own colors (`native_colormap`) or with a color map.
pub open spec fn spec_fragment_kind(channel: ChannelType, native_colormap: bool) -> FragmentKind {
    if channel.spec_is_colored() {
        if native_colormap {
            FragmentKind::Color
        } else {
            FragmentKind::ColorToColormap
        }
    } else if channel == ChannelType::R8UI {
        FragmentKind::GrayscaleToColormapU
    } else if channel == ChannelType::R16I || channel == ChannelType::R32I {
        FragmentKind::GrayscaleToColormapI
    } else {
        FragmentKind::GrayscaleToColormap
    }
}

/// The file of the fragment program of the per-cell drawing path.
pub open spec fn spec_raster_frag(kind: FragmentKind) -> Seq<char> {
    match kind {
        FragmentKind::Color => "hips_rasterizer_color.frag"@,
        FragmentKind::ColorToColormap => "hips_rasterizer_color_to_colormap.frag"@,
        FragmentKind::GrayscaleToColormapU => "hips_rasterizer_grayscale_to_colormap_u.frag"@,
        FragmentKind::GrayscaleToColormapI => "hips_rasterizer_grayscale_to_colormap_i.frag"@,
        FragmentKind::GrayscaleToColormap => "hips_rasterizer_grayscale_to_colormap.frag"@,
    }
}

/// The file of the fragment program of the per-pixel drawing path.
pub open spec fn spec_raytracer_frag(kind: FragmentKind) -> Seq<char> {
    match kind {
        FragmentKind::Color => "hips_raytracer_color.frag"@,
        FragmentKind::ColorToColormap => "hips_raytracer_color_to_colormap.frag"@,
        FragmentKind::GrayscaleToColormapU => "hips_raytracer_grayscale_to_colormap_u.frag"@,
        FragmentKind::GrayscaleToColormapI => "hips_raytracer_grayscale_to_colormap_i.frag"@,
        FragmentKind::GrayscaleToColormap => "hips_raytracer_grayscale_to_colormap.frag"@,
    }
}

/// Chooses how the color of a pixel is obtained.
pub fn fragment_kind(native_colormap: bool, config: &HiPSConfig) -> (kind: FragmentKind)
    requires
        config.wf(),
    ensures
        kind == spec_fragment_kind(config.format.channel, native_colormap),
{
    if config.get_format().is_colored() {
        if native_colormap {
            FragmentKind::Color
        } else {
            FragmentKind::ColorToColormap
        }
    } else if config.tex_storing_unsigned_int {
        FragmentKind::GrayscaleToColormapU
    } else if config.tex_storing_integers {
        FragmentKind::GrayscaleToColormapI
    } else {
        FragmentKind::GrayscaleToColormap
    }
}

/// The programs of the per-cell drawing path for a survey, drawn with its
/// own colors (`native_colormap`) or with a color map.
pub fn get_raster_shader(native_colormap: bool, config: &HiPSConfig) -> (shader: ShaderFiles)
    requires
        config.wf(),
    ensures
        shader.vert@ == "hips_rasterizer_raster.vert"@,
        shader.frag@ == spec_raster_frag(
            spec_fragment_kind(config.format.channel, native_colormap),
        ),
{
    let frag: &'static str = match fragment_kind(native_colormap, config) {
        FragmentKind::Color => "hips_rasterizer_color.frag",
        FragmentKind::ColorToColormap => "hips_rasterizer_color_to_colormap.frag",
        FragmentKind::GrayscaleToColormapU => "hips_rasterizer_grayscale_to_colormap_u.frag",
        FragmentKind::GrayscaleToColormapI => "hips_rasterizer_grayscale_to_colormap_i.frag",
        FragmentKind::GrayscaleToColormap => "hips_rasterizer_grayscale_to_colormap.frag",
    };
    ShaderFiles { vert: "hips_rasterizer_raster.vert", frag }
}

/// The programs of the per-pixel drawing path for a survey, drawn with
/// its own colors (`native_colormap`) or with a color map.
pub fn get_raytracer_shader(native_colormap: bool, config: &HiPSConfig) -> (shader: ShaderFiles)
    requires
        config.wf(),
    ensures
        shader.vert@ == "hips_raytracer_raytracer.vert"@,
        shader.frag@ == spec_raytracer_frag(
            spec_fragment_kind(config.format.channel, native_colormap),
        ),
{
    let frag: &'static str = match fragment_kind(native_colormap, config) {
        FragmentKind::Color => "hips_raytracer_color.frag",
        FragmentKind::ColorToColormap => "hips_raytracer_color_to_colormap.frag",
        FragmentKind::GrayscaleToColormapU => "hips_raytracer_grayscale_to_colormap_u.frag",
        FragmentKind::GrayscaleToColormapI => "hips_raytracer_grayscale_to_colormap_i.frag",
        FragmentKind::GrayscaleToColormap => "hips_raytracer_grayscale_to_colormap.frag",
    };
    ShaderFiles { vert: "hips_raytracer_raytracer.vert", frag }
}

} // verus!
