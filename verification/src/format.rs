//! Image formats of survey tiles and what the renderer derives from them.
use vstd::prelude::*;

verus! {

/// The file format that tiles are fetched in.
#[derive(Clone, Copy, Debug, PartialEq, Eq, Structural, Hash)]
pub enum ImageExt {
    Fits,
    Jpeg,
    Png,
}

/// The layout of one pixel once a tile is decoded.
#[derive(Clone, Copy, Debug, PartialEq, Eq, Structural, Hash)]
pub enum ChannelType {
    RGBA8U,
    RGB8U,
    R32F,
    R8UI,
    R16I,
    R32I,
}

/// A file format together with the pixel layout it decodes to.
#[derive(Clone, Copy, Debug, PartialEq, Eq, Structural, Hash)]
pub struct ImageFormatType {
    pub ext: ImageExt,
    pub channel: ChannelType,
}

/// The texture format of three 8-bit color values, by its number in the
/// graphics interface.
pub const GL_RGB: i32 = 6407;

/// The texture format of four 8-bit color values.
pub const GL_RGBA: i32 = 6408;

/// The texture format of one 32-bit float.
pub const GL_R32F: i32 = 33326;

/// The texture format of one unsigned 8-bit integer.
pub const GL_R8UI: i32 = 33330;

/// The texture format of one signed 16-bit integer.
pub const GL_R16I: i32 = 33331;

/// The texture format of one signed 32-bit integer.
pub const GL_R32I: i32 = 33333;

impl ChannelType {
    /// Number of values per pixel.
    pub open spec fn spec_num_channels(self) -> nat {
        match self {
            ChannelType::RGBA8U => 4,
            ChannelType::RGB8U => 3,
            _ => 1,
        }
    }

    /// Whether the pixels carry a color of their own, as opposed to one
    /// value that a color map turns into a color.
    pub open spec fn spec_is_colored(self) -> bool {
        self == ChannelType::RGBA8U || self == ChannelType::RGB8U
    }

    /// The texture format that holds pixels of this layout.
    pub open spec fn spec_internal_format(self) -> int {
        match self {
            ChannelType::RGBA8U => GL_RGBA as int,
            ChannelType::RGB8U => GL_RGB as int,
            ChannelType::R32F => GL_R32F as int,
            ChannelType::R8UI => GL_R8UI as int,
            ChannelType::R16I => GL_R16I as int,
            ChannelType::R32I => GL_R32I as int,
        }
    }

    /// Whether a missing tile of this layout shows as opaque black rather
    /// than as a transparent gap.
    pub open spec fn spec_has_opaque_default(self) -> bool {
        self == ChannelType::RGB8U
    }

    /// Whether a missing tile of this layout shows as opaque black.
    pub fn has_opaque_default(&self) -> (r: bool)
        ensures
            r == self.spec_has_opaque_default(),
    {
        matches!(self, ChannelType::RGB8U)
    }
}

impl ImageExt {
    /// The file extension, as it ends a tile's name.
    pub open spec fn spec_ext_file(self) -> Seq<char> {
        match self {
            ImageExt::Fits => "fits"@,
            ImageExt::Jpeg => "jpg"@,
            ImageExt::Png => "png"@,
        }
    }

    /// The file extension, as it ends a tile's name.
    pub fn get_ext_file(&self) -> (s: &'static str)
        ensures
            s@ == self.spec_ext_file(),
    {
        match self {
            ImageExt::Fits => "fits",
            ImageExt::Jpeg => "jpg",
            ImageExt::Png => "png",
        }
    }
}

impl ImageFormatType {
    /// The true-color format of JPEG tiles.
    pub open spec fn jpeg() -> ImageFormatType {
        ImageFormatType { ext: ImageExt::Jpeg, channel: ChannelType::RGB8U }
    }

    /// The true-color format, with transparency, of PNG tiles.
    pub open spec fn png() -> ImageFormatType {
        ImageFormatType { ext: ImageExt::Png, channel: ChannelType::RGBA8U }
    }

    /// The format of FITS tiles whose pixels have the layout `channel`.
    pub open spec fn fits(channel: ChannelType) -> ImageFormatType {
        ImageFormatType { ext: ImageExt::Fits, channel }
    }

    /// The file extension, as it ends a tile's name.
    pub fn get_ext_file(&self) -> (s: &'static str)
        ensures
            s@ == self.ext.spec_ext_file(),
    {
        self.ext.get_ext_file()
    }

    /// The layout of one pixel.
    pub fn get_channel(&self) -> (c: ChannelType)
        ensures
            c == self.channel,
    {
        self.channel
    }

    /// Whether the pixels carry a color of their own.
    pub fn is_colored(&self) -> (r: bool)
        ensures
            r == self.channel.spec_is_colored(),
    {
        matches!(self.channel, ChannelType::RGBA8U | ChannelType::RGB8U)
    }

    /// Number of values per pixel.
    pub fn get_num_channels(&self) -> (n: usize)
        ensures
            n == self.channel.spec_num_channels(),
    {
        match self.channel {
            ChannelType::RGBA8U => 4,
            ChannelType::RGB8U => 3,
            _ => 1,
        }
    }

    /// The texture format that holds the pixels.
    pub fn get_internal_format(&self) -> (f: i32)
        ensures
            f == self.channel.spec_internal_format(),
    {
        match self.channel {
            ChannelType::RGBA8U => GL_RGBA,
            ChannelType::RGB8U => GL_RGB,
            ChannelType::R32F => GL_R32F,
            ChannelType::R8UI => GL_R8UI,
            ChannelType::R16I => GL_R16I,
            ChannelType::R32I => GL_R32I,
        }
    }

    /// Whether the texture stores unsigned integers.
    pub fn is_u_internal_format(&self) -> (r: bool)
        ensures
            r == (self.channel == ChannelType::R8UI),
    {
        matches!(self.channel, ChannelType::R8UI)
    }

    /// Whether the texture stores signed integers.
    pub fn is_i_internal_format(&self) -> (r: bool)
        ensures
            r == (self.channel == ChannelType::R16I || self.channel == ChannelType::R32I),
    {
        matches!(self.channel, ChannelType::R16I | ChannelType::R32I)
    }
}

} // verus!
