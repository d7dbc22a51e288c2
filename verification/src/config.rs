//! What a survey declares about its tiles, and the atlas layout derived
//! from it.
use crate::cell::{cells_per_base, pow2_u64, MAX_DEPTH};
use crate::coo_system::CooSystem;
use crate::format::{ChannelType, ImageExt, ImageFormatType};
use crate::text::{contains_str, has_subseq};
use vstd::arithmetic::power2::{
    lemma2_to64, lemma_pow2_adds, lemma_pow2_pos, lemma_pow2_strictly_increases, pow2,
};
use vstd::prelude::*;
use vstd::string::StringSliceAdditionalSpecFns;

verus! {

/// Side, in pixels, of the largest atlas entry.
pub const MAX_TEXTURE_SIZE: i32 = 512;

/// Atlas entries along one side of a slice, unless stated otherwise.
pub const DEFAULT_TEXTURES_BY_SIDE_SLICE: i32 = 8;

/// Slices of the atlas, unless stated otherwise.
pub const DEFAULT_SLICES: i32 = 3;

/// Whether `x` is a power of two.
pub open spec fn spec_is_power_of_two(x: nat) -> bool {
    exists|e: nat| x == #[trigger] pow2(e)
}

/// Whether `w` can be the side of a tile: a power of two up to
/// [`MAX_TEXTURE_SIZE`].
pub open spec fn spec_is_tile_size(w: int) -> bool {
    exists|e: nat| e <= 9 && w == #[trigger] pow2(e)
}

/// Side of an atlas entry for tiles of side `tile_size` of a survey whose
/// deepest tiles are at `max_order`.
pub open spec fn spec_texture_size(tile_size: int, max_order: nat) -> int {
    if tile_size * pow2(max_order) >= MAX_TEXTURE_SIZE {
        MAX_TEXTURE_SIZE as int
    } else {
        tile_size * pow2(max_order)
    }
}

/// Tells whether `x` is a power of two.
pub fn is_power_of_two(x: usize) -> (r: bool)
    ensures
        r == spec_is_power_of_two(x as nat),
{
    let mut p: usize = 1;
    let ghost mut e: nat = 0;
    proof {
        lemma2_to64();
    }
    while p < x && p <= usize::MAX / 2
        invariant
            p == pow2(e),
            p >= 1,
            forall|j: nat| j < e ==> pow2(j) < x,
        decreases usize::MAX - p,
    {
        proof {
            lemma_pow2_adds(e, 1);
            lemma2_to64();
            assert forall|j: nat| j < e + 1 implies pow2(j) < x by {
                if j < e {
                } else {
                    assert(j == e);
                }
            }
            e = e + 1;
        }
        p = p * 2;
    }
    proof {
        if p != x {
            assert forall|j: nat| x != #[trigger] pow2(j) by {
                if j < e {
                } else if j == e {
                } else {
                    lemma_pow2_strictly_increases(e, j);
                    lemma_pow2_adds(e, 1);
                    lemma2_to64();
                    if e + 1 < j {
                        lemma_pow2_strictly_increases(e + 1, j);
                    }
                }
            }
        }
    }
    p == x
}

/// The pixels of a tile, by the type of one value. Values of 32-bit floats
/// are held by their bit patterns.
#[derive(Debug)]
pub enum TileArrayBufferImage {
    F32(Vec<u32>),
    U8(Vec<u8>),
    I16(Vec<i16>),
    I32(Vec<i32>),
}

impl TileArrayBufferImage {
    /// Number of values held.
    pub open spec fn spec_len(&self) -> nat {
        match self {
            TileArrayBufferImage::F32(v) => v@.len(),
            TileArrayBufferImage::U8(v) => v@.len(),
            TileArrayBufferImage::I16(v) => v@.len(),
            TileArrayBufferImage::I32(v) => v@.len(),
        }
    }

    /// Every value is zero.
    pub open spec fn spec_is_blank(&self) -> bool {
        match self {
            TileArrayBufferImage::F32(v) => forall|i: int| 0 <= i < v@.len() ==> v@[i] == 0,
            TileArrayBufferImage::U8(v) => forall|i: int| 0 <= i < v@.len() ==> v@[i] == 0,
            TileArrayBufferImage::I16(v) => forall|i: int| 0 <= i < v@.len() ==> v@[i] == 0,
            TileArrayBufferImage::I32(v) => forall|i: int| 0 <= i < v@.len() ==> v@[i] == 0,
        }
    }

    /// Whether the values are of the type that pixels of layout `channel` have.
    pub open spec fn spec_holds(&self, channel: ChannelType) -> bool {
        match channel {
            ChannelType::R32F => self is F32,
            ChannelType::R16I => self is I16,
            ChannelType::R32I => self is I32,
            _ => self is U8,
        }
    }

    /// Number of values held.
    pub fn len(&self) -> (n: usize)
        ensures
            n == self.spec_len(),
    {
        match self {
            TileArrayBufferImage::F32(v) => v.len(),
            TileArrayBufferImage::U8(v) => v.len(),
            TileArrayBufferImage::I16(v) => v.len(),
            TileArrayBufferImage::I32(v) => v.len(),
        }
    }
}

/// A tile of side `width` whose every value is zero, of the type that
/// `format` decodes to.
pub fn create_empty_tile(format: &ImageFormatType, width: i32) -> (tile: TileArrayBufferImage)
    requires
        0 < width <= MAX_TEXTURE_SIZE,
    ensures
        tile.spec_len() == width * width * format.channel.spec_num_channels(),
        tile.spec_is_blank(),
        tile.spec_holds(format.channel),
{
    let w: usize = width as usize;
    let c: usize = format.get_num_channels();
    assert(w * w <= 512 * 512) by (nonlinear_arith)
        requires
            0 < w <= 512,
    ;
    assert(w * w * c <= 512 * 512 * 4) by (nonlinear_arith)
        requires
            w * w <= 512 * 512,
            c <= 4,
    ;
    let n: usize = w * w * c;
    match format.channel {
        ChannelType::R32F => TileArrayBufferImage::F32(vec![0u32; n]),
        ChannelType::R16I => TileArrayBufferImage::I16(vec![0i16; n]),
        ChannelType::R32I => TileArrayBufferImage::I32(vec![0i32; n]),
        _ => TileArrayBufferImage::U8(vec![0u8; n]),
    }
}

/// The side of a tile and the pixels that stand for a tile that is missing.
#[derive(Debug)]
pub struct TileConfig {
    pub width: i32,
    pub blank_tile: TileArrayBufferImage,
}

impl TileConfig {
    /// The side is the side of a tile, and the blank tile has its size and
    /// the type of the pixels of `format`.
    pub open spec fn wf(&self, format: ImageFormatType) -> bool {
        &&& spec_is_tile_size(self.width as int)
        &&& self.blank_tile.spec_len() == self.width * self.width
            * format.channel.spec_num_channels()
        &&& self.blank_tile.spec_is_blank()
        &&& self.blank_tile.spec_holds(format.channel)
    }

    /// The configuration of tiles of side `width` in the format `format`.
    pub fn new(width: i32, format: &ImageFormatType) -> (cfg: TileConfig)
        requires
            spec_is_tile_size(width as int),
        ensures
            cfg.width == width,
            cfg.wf(*format),
    {
        proof {
            lemma_tile_size_bounds(width as int);
        }
        TileConfig { width, blank_tile: create_empty_tile(format, width) }
    }

    /// Side of a tile, in pixels.
    pub fn get_tile_size(&self) -> (w: i32)
        ensures
            w == self.width,
    {
        self.width
    }

    /// The pixels that stand for a tile that is missing.
    pub fn get_blank_tile(&self) -> (tile: &TileArrayBufferImage)
        ensures
            *tile == self.blank_tile,
    {
        &self.blank_tile
    }
}

/// A tile's side lies between 1 and [`MAX_TEXTURE_SIZE`].
pub proof fn lemma_tile_size_bounds(w: int)
    requires
        spec_is_tile_size(w),
    ensures
        0 < w <= MAX_TEXTURE_SIZE,
        spec_is_power_of_two(w as nat),
{
    let e = choose|e: nat| e <= 9 && w == #[trigger] pow2(e);
    lemma_pow2_pos(e);
    lemma2_to64();
    if e < 9 {
        lemma_pow2_strictly_increases(e, 9);
    }
}

/// Why a survey's declaration cannot be turned into a configuration.
#[derive(Clone, Copy, Debug, PartialEq, Eq, Structural, Hash)]
pub enum ConfigError {
    /// FITS tiles are declared but the number of bits per pixel is none of
    /// those a FITS tile can have, and no other format is declared.
    IncorrectBitpix,
    /// None of the formats that the renderer reads is declared.
    NoFormatRecognized,
}

impl ConfigError {
    /// The error in words.
    pub open spec fn spec_message(self) -> Seq<char> {
        match self {
            ConfigError::IncorrectBitpix => {
                "Fits tiles exists but the BITPIX is not correct in the property file"@
            },
            ConfigError::NoFormatRecognized => "No format recognized"@,
        }
    }

    /// The error in words.
    pub fn message(&self) -> (text: &'static str)
        ensures
            text@ == self.spec_message(),
    {
        match self {
            ConfigError::IncorrectBitpix => {
                "Fits tiles exists but the BITPIX is not correct in the property file"
            },
            ConfigError::NoFormatRecognized => "No format recognized",
        }
    }
}

/// The format that a survey's tiles are read in, from the formats it
/// declares (as bytes of text) and from its number of bits per pixel.
pub open spec fn spec_detect_format(formats: Seq<u8>, bitpix: int) -> Result<
    ImageFormatType,
    ConfigError,
> {
    let png = has_subseq(formats, "png".spec_bytes());
    let jpeg = has_subseq(formats, "jpeg".spec_bytes()) || has_subseq(
        formats,
        "jpg".spec_bytes(),
    );
    if has_subseq(formats, "fits".spec_bytes()) {
        if bitpix == 8 {
            Ok(ImageFormatType::fits(ChannelType::R8UI))
        } else if bitpix == 16 {
            Ok(ImageFormatType::fits(ChannelType::R16I))
        } else if bitpix == 32 {
            Ok(ImageFormatType::fits(ChannelType::R32I))
        } else if bitpix == -32 {
            Ok(ImageFormatType::fits(ChannelType::R32F))
        } else if png {
            Ok(ImageFormatType::png())
        } else if jpeg {
            Ok(ImageFormatType::jpeg())
        } else {
            Err(ConfigError::IncorrectBitpix)
        }
    } else if png {
        Ok(ImageFormatType::png())
    } else if jpeg {
        Ok(ImageFormatType::jpeg())
    } else {
        Err(ConfigError::NoFormatRecognized)
    }
}

/// Chooses the format that a survey's tiles are read in.
pub fn detect_format(formats: &str, bitpix: i32) -> (r: Result<ImageFormatType, ConfigError>)
    ensures
        r == spec_detect_format(formats.spec_bytes(), bitpix as int),
{
    if contains_str(formats, "fits") {
        if bitpix == 8 {
            Ok(ImageFormatType { ext: ImageExt::Fits, channel: ChannelType::R8UI })
        } else if bitpix == 16 {
            Ok(ImageFormatType { ext: ImageExt::Fits, channel: ChannelType::R16I })
        } else if bitpix == 32 {
            Ok(ImageFormatType { ext: ImageExt::Fits, channel: ChannelType::R32I })
        } else if bitpix == -32 {
            Ok(ImageFormatType { ext: ImageExt::Fits, channel: ChannelType::R32F })
        } else if contains_str(formats, "png") {
            Ok(ImageFormatType { ext: ImageExt::Png, channel: ChannelType::RGBA8U })
        } else if contains_str(formats, "jpeg") || contains_str(formats, "jpg") {
            Ok(ImageFormatType { ext: ImageExt::Jpeg, channel: ChannelType::RGB8U })
        } else {
            Err(ConfigError::IncorrectBitpix)
        }
    } else if contains_str(formats, "png") {
        Ok(ImageFormatType { ext: ImageExt::Png, channel: ChannelType::RGBA8U })
    } else if contains_str(formats, "jpeg") || contains_str(formats, "jpg") {
        Ok(ImageFormatType { ext: ImageExt::Jpeg, channel: ChannelType::RGB8U })
    } else {
        Err(ConfigError::NoFormatRecognized)
    }
}

/// The format of tiles fetched with the extension `ext`, for a survey
/// whose FITS tiles have `bitpix` bits per pixel: FITS tiles have the
/// layout that the bits per pixel give, and are refused when these are
/// none of those a FITS tile can have.
pub open spec fn spec_format_for(ext: ImageExt, bitpix: int) -> Result<ImageFormatType, ConfigError> {
    match ext {
        ImageExt::Fits => if bitpix == 8 {
            Ok(ImageFormatType::fits(ChannelType::R8UI))
        } else if bitpix == 16 {
            Ok(ImageFormatType::fits(ChannelType::R16I))
        } else if bitpix == 32 {
            Ok(ImageFormatType::fits(ChannelType::R32I))
        } else if bitpix == -32 {
            Ok(ImageFormatType::fits(ChannelType::R32F))
        } else {
            Err(ConfigError::IncorrectBitpix)
        },
        ImageExt::Png => Ok(ImageFormatType::png()),
        ImageExt::Jpeg => Ok(ImageFormatType::jpeg()),
    }
}

/// Chooses the format of tiles fetched with the extension `ext`.
pub fn format_for(ext: ImageExt, bitpix: i32) -> (r: Result<ImageFormatType, ConfigError>)
    ensures
        r == spec_format_for(ext, bitpix as int),
{
    match ext {
        ImageExt::Fits => {
            if bitpix == 8 {
                Ok(ImageFormatType { ext: ImageExt::Fits, channel: ChannelType::R8UI })
            } else if bitpix == 16 {
                Ok(ImageFormatType { ext: ImageExt::Fits, channel: ChannelType::R16I })
            } else if bitpix == 32 {
                Ok(ImageFormatType { ext: ImageExt::Fits, channel: ChannelType::R32I })
            } else if bitpix == -32 {
                Ok(ImageFormatType { ext: ImageExt::Fits, channel: ChannelType::R32F })
            } else {
                Err(ConfigError::IncorrectBitpix)
            }
        },
        ImageExt::Png => Ok(ImageFormatType { ext: ImageExt::Png, channel: ChannelType::RGBA8U }),
        ImageExt::Jpeg => Ok(ImageFormatType { ext: ImageExt::Jpeg, channel: ChannelType::RGB8U }),
    }
}

/// What a survey declares about itself.
#[derive(Clone, Debug)]
pub struct HiPSProperties {
    /// Address under which the tiles are found.
    pub url: String,
    /// Identifier of the survey.
    pub creator_did: String,
    /// The formats that tiles exist in, as one text.
    pub format: String,
    /// Bits per pixel of FITS tiles, negative for floating point.
    pub bitpix: i32,
    /// Depth of the deepest tiles.
    pub max_order: u8,
    /// Depth of the shallowest tiles.
    pub min_order: u8,
    /// Side of a tile, in pixels.
    pub tile_size: i32,
    /// Frame that the survey's cells are laid out in.
    pub frame: CooSystem,
}

impl HiPSProperties {
    /// The declaration can be configured from: the tile side is a power of
    /// two up to [`MAX_TEXTURE_SIZE`] and the orders are orders of the
    /// pixelization.
    pub open spec fn wf(&self) -> bool {
        &&& spec_is_tile_size(self.tile_size as int)
        &&& self.min_order <= MAX_DEPTH
        &&& self.max_order <= MAX_DEPTH
    }

    /// Tells whether the declaration can be configured from.
    pub fn is_valid(&self) -> (r: bool)
        ensures
            r == self.wf(),
    {
        if self.tile_size <= 0 || self.tile_size > MAX_TEXTURE_SIZE {
            proof {
                if spec_is_tile_size(self.tile_size as int) {
                    lemma_tile_size_bounds(self.tile_size as int);
                }
            }
            return false;
        }
        let pow: bool = is_power_of_two(self.tile_size as usize);
        proof {
            if pow {
                let e = choose|e: nat| self.tile_size as nat == #[trigger] pow2(e);
                lemma2_to64();
                if e > 9 {
                    lemma_pow2_strictly_increases(9, e);
                }
            } else if spec_is_tile_size(self.tile_size as int) {
                lemma_tile_size_bounds(self.tile_size as int);
            }
        }
        pow && self.min_order <= MAX_DEPTH && self.max_order <= MAX_DEPTH
    }
}

/// What the drawing programs are told about a survey.
#[derive(Clone, Copy, Debug, PartialEq, Eq, Structural, Hash)]
pub struct ConfigUniforms {
    /// Depth of the deepest cells that an atlas entry is bound to.
    pub max_depth: i32,
    /// Number of tiles along one side of a slice of the default atlas:
    /// the side of a tile in texture coordinates is one over it.
    pub tiles_by_side: i32,
    /// 1 where the texture stores signed integers, else 0.
    pub tex_storing_integers: i32,
}

/// Format of the tiles, size of the atlas and how tiles pack into its
/// entries.
#[derive(Debug)]
pub struct HiPSConfig {
    pub root_url: String,
    pub creator_did: String,
    pub format: ImageFormatType,
    pub tile_config: TileConfig,
    /// Side of an atlas entry, in pixels.
    pub texture_size: i32,
    /// Levels between an atlas entry's cell and the cells of its tiles.
    pub delta_depth: u8,
    /// Tiles that one atlas entry packs.
    pub num_tiles_per_texture: usize,
    /// Depth of the deepest cells that an atlas entry is bound to.
    pub max_depth_texture: u8,
    /// Depth of the deepest tiles.
    pub max_depth_tile: u8,
    /// Depth of the shallowest tiles.
    pub min_depth_tile: u8,
    pub num_textures_by_side_slice: i32,
    pub num_textures_by_slice: i32,
    pub num_slices: i32,
    /// Number of atlas entries.
    pub num_textures: usize,
    pub frame: CooSystem,
    pub is_allsky: bool,
    pub tex_storing_integers: bool,
    pub tex_storing_unsigned_int: bool,
    /// Bits per pixel of FITS tiles, negative for floating point.
    pub bitpix: i32,
}

impl HiPSConfig {
    /// The invariant of a configuration: an atlas entry is a square of
    /// `2^delta_depth` tiles a side, no larger than [`MAX_TEXTURE_SIZE`];
    /// the deepest entries lie `delta_depth` above the deepest tiles; and
    /// the atlas is made of slices of a square of entries each.
    pub open spec fn wf(&self) -> bool {
        &&& self.tile_config.wf(self.format)
        &&& self.delta_depth <= 9
        &&& self.texture_size == self.tile_config.width * pow2(self.delta_depth as nat)
        &&& 0 < self.texture_size <= MAX_TEXTURE_SIZE
        &&& self.num_tiles_per_texture == cells_per_base(self.delta_depth as nat)
        &&& self.min_depth_tile <= MAX_DEPTH
        &&& self.max_depth_tile <= MAX_DEPTH
        &&& self.max_depth_texture + self.delta_depth == self.max_depth_tile
        &&& 0 < self.num_textures_by_side_slice
        &&& self.num_textures_by_slice == self.num_textures_by_side_slice
            * self.num_textures_by_side_slice
        &&& 0 < self.num_slices
        &&& self.num_textures == self.num_textures_by_slice * self.num_slices
        &&& 0 < self.num_textures <= i32::MAX
        &&& self.tex_storing_unsigned_int == (self.format.channel == ChannelType::R8UI)
        &&& self.tex_storing_integers == (self.format.channel == ChannelType::R16I
            || self.format.channel == ChannelType::R32I)
    }

    /// What the constructors derive from a survey's declaration.
    pub open spec fn derived_from(
        &self,
        properties: &HiPSProperties,
        format: ImageFormatType,
    ) -> bool {
        &&& self.wf()
        &&& self.root_url@ == properties.url@
        &&& self.creator_did@ == properties.creator_did@
        &&& self.format == format
        &&& self.tile_config.width == properties.tile_size
        &&& self.texture_size == spec_texture_size(
            properties.tile_size as int,
            properties.max_order as nat,
        )
        &&& self.max_depth_tile == properties.max_order
        &&& self.min_depth_tile == properties.min_order
        &&& self.frame == properties.frame
        &&& self.bitpix == properties.bitpix
        &&& !self.is_allsky
    }

    /// The format that the constructors choose for a survey.
    pub open spec fn spec_format_of(properties: &HiPSProperties) -> Result<
        ImageFormatType,
        ConfigError,
    > {
        spec_detect_format(vstd::utf8::encode_utf8(properties.format@), properties.bitpix as int)
    }

    /// The configuration of a survey, with the atlas of 3 slices of 8 by 8
    /// entries. Fails when none of the declared formats can be read.
    pub fn new(properties: &HiPSProperties) -> (r: Result<HiPSConfig, ConfigError>)
        requires
            properties.wf(),
        ensures
            match HiPSConfig::spec_format_of(properties) {
                Err(e) => r == Err::<HiPSConfig, ConfigError>(e),
                Ok(format) => r is Ok && r->Ok_0.derived_from(properties, format)
                    && r->Ok_0.num_textures_by_side_slice == DEFAULT_TEXTURES_BY_SIDE_SLICE
                    && r->Ok_0.num_slices == DEFAULT_SLICES,
            },
    {
        HiPSConfig::with_atlas(properties, DEFAULT_TEXTURES_BY_SIDE_SLICE, DEFAULT_SLICES)
    }

    /// The configuration of a survey, with an atlas of `num_slices` slices of
    /// `by_side * by_side` entries each. Fails when none of the declared
    /// formats can be read.
    pub fn with_atlas(properties: &HiPSProperties, by_side: i32, num_slices: i32) -> (r: Result<
        HiPSConfig,
        ConfigError,
    >)
        requires
            properties.wf(),
            0 < by_side,
            0 < num_slices,
            by_side * by_side * num_slices <= i32::MAX,
        ensures
            match HiPSConfig::spec_format_of(properties) {
                Err(e) => r == Err::<HiPSConfig, ConfigError>(e),
                Ok(format) => r is Ok && r->Ok_0.derived_from(properties, format)
                    && r->Ok_0.num_textures_by_side_slice == by_side && r->Ok_0.num_slices
                    == num_slices,
            },
    {
        let format: ImageFormatType = match detect_format(
            properties.format.as_str(),
            properties.bitpix,
        ) {
            Ok(f) => f,
            Err(e) => {
                return Err(e);
            },
        };
        let tile_size: i32 = properties.tile_size;
        let tile_config = TileConfig::new(tile_size, &format);
        proof {
            lemma_tile_size_bounds(tile_size as int);
            lemma2_to64();
        }
        let ghost e0: nat = choose|e: nat| e <= 9 && tile_size == #[trigger] pow2(e);
        let mut texture_size: i32 = tile_size;
        let mut delta_depth: u8 = 0;
        while texture_size < MAX_TEXTURE_SIZE && delta_depth < properties.max_order
            invariant
                e0 <= 9,
                tile_size == pow2(e0),
                e0 + delta_depth <= 9,
                texture_size == pow2(e0 + delta_depth as nat),
                texture_size == tile_size * pow2(delta_depth as nat),
                0 < texture_size <= MAX_TEXTURE_SIZE,
                delta_depth <= properties.max_order,
            decreases properties.max_order - delta_depth,
        {
            proof {
                lemma2_to64();
                if e0 + delta_depth == 9 {
                    assert(false);
                }
                lemma_pow2_adds(e0 + delta_depth as nat, 1);
                lemma_pow2_adds(delta_depth as nat, 1);
                if e0 + delta_depth + 1 < 9 {
                    lemma_pow2_strictly_increases(e0 + delta_depth as nat + 1, 9);
                }
                assert(tile_size * (pow2(delta_depth as nat) * 2) == (tile_size * pow2(
                    delta_depth as nat,
                )) * 2) by (nonlinear_arith);
            }
            texture_size = texture_size * 2;
            delta_depth = delta_depth + 1;
        }
        proof {
            lemma_pow2_pos(delta_depth as nat);
            lemma_pow2_pos(properties.max_order as nat);
            if delta_depth < properties.max_order {
                lemma_pow2_strictly_increases(delta_depth as nat, properties.max_order as nat);
                assert(tile_size * pow2(delta_depth as nat) <= tile_size * pow2(
                    properties.max_order as nat,
                )) by (nonlinear_arith)
                    requires
                        tile_size > 0,
                        pow2(delta_depth as nat) < pow2(properties.max_order as nat),
                ;
            }
        }
        let side: u64 = pow2_u64(2 * delta_depth);
        proof {
            lemma2_to64();
            if 2 * delta_depth < 18 {
                lemma_pow2_strictly_increases(2 * delta_depth as nat, 18);
            }
        }
        assert(0 < by_side * by_side <= by_side * by_side * num_slices) by (nonlinear_arith)
            requires
                0 < by_side,
                0 < num_slices,
        ;
        let by_slice: i32 = by_side * by_side;
        let num_textures: i32 = by_slice * num_slices;
        Ok(
            HiPSConfig {
                root_url: properties.url.clone(),
                creator_did: properties.creator_did.clone(),
                format,
                tile_config,
                texture_size,
                delta_depth,
                num_tiles_per_texture: side as usize,
                max_depth_texture: properties.max_order - delta_depth,
                max_depth_tile: properties.max_order,
                min_depth_tile: properties.min_order,
                num_textures_by_side_slice: by_side,
                num_textures_by_slice: by_slice,
                num_slices,
                num_textures: num_textures as usize,
                frame: properties.frame,
                is_allsky: false,
                tex_storing_integers: format.is_i_internal_format(),
                tex_storing_unsigned_int: format.is_u_internal_format(),
                bitpix: properties.bitpix,
            },
        )
    }

    /// Whether `self` is `before` with its tiles read in the format
    /// `format`: the format, the blank tile and what the textures store
    /// follow the format, and all else is as it was.
    pub open spec fn reformatted(&self, before: &HiPSConfig, format: ImageFormatType) -> bool {
        &&& self.wf()
        &&& self.format == format
        &&& self.tile_config.width == before.tile_config.width
        &&& *self == (HiPSConfig {
            format: self.format,
            tile_config: self.tile_config,
            tex_storing_integers: self.tex_storing_integers,
            tex_storing_unsigned_int: self.tex_storing_unsigned_int,
            ..*before
        })
    }

    /// Has the tiles of the survey fetched with the extension `ext` from
    /// now on. Fails, and changes nothing, when FITS tiles are asked for
    /// and the bits per pixel are none of those a FITS tile can have.
    pub fn set_image_ext(&mut self, ext: ImageExt) -> (r: Result<(), ConfigError>)
        requires
            old(self).wf(),
        ensures
            match spec_format_for(ext, old(self).bitpix as int) {
                Err(e) => r == Err::<(), ConfigError>(e) && *final(self) == *old(self),
                Ok(format) => r is Ok && final(self).reformatted(old(self), format),
            },
    {
        match format_for(ext, self.bitpix) {
            Err(e) => Err(e),
            Ok(format) => {
                self.tile_config = TileConfig::new(self.tile_config.width, &format);
                self.format = format;
                self.tex_storing_integers = format.is_i_internal_format();
                self.tex_storing_unsigned_int = format.is_u_internal_format();
                Ok(())
            },
        }
    }

    /// What the drawing programs are told about the survey.
    pub open spec fn spec_uniforms(&self) -> ConfigUniforms {
        ConfigUniforms {
            max_depth: self.max_depth_texture as i32,
            tiles_by_side: (DEFAULT_TEXTURES_BY_SIDE_SLICE * pow2(self.delta_depth as nat)) as i32,
            tex_storing_integers: if self.format.channel == ChannelType::R16I
                || self.format.channel == ChannelType::R32I {
                1
            } else {
                0
            },
        }
    }

    /// What the drawing programs are told about the survey.
    pub fn uniforms(&self) -> (record: ConfigUniforms)
        requires
            self.wf(),
        ensures
            record == self.spec_uniforms(),
    {
        let side: u64 = pow2_u64(self.delta_depth);
        proof {
            lemma2_to64();
            if self.delta_depth < 9 {
                lemma_pow2_strictly_increases(self.delta_depth as nat, 9);
            }
        }
        ConfigUniforms {
            max_depth: self.max_depth_texture as i32,
            tiles_by_side: DEFAULT_TEXTURES_BY_SIDE_SLICE * (side as i32),
            tex_storing_integers: if self.format.is_i_internal_format() {
                1
            } else {
                0
            },
        }
    }

    /// Levels between an atlas entry's cell and the cells of its tiles.
    pub fn delta_depth(&self) -> (d: u8)
        ensures
            d == self.delta_depth,
    {
        self.delta_depth
    }

    /// Tiles that one atlas entry packs.
    pub fn num_tiles_per_texture(&self) -> (n: usize)
        ensures
            n == self.num_tiles_per_texture,
    {
        self.num_tiles_per_texture
    }

    /// Side of an atlas entry, in pixels.
    pub fn get_texture_size(&self) -> (n: i32)
        ensures
            n == self.texture_size,
    {
        self.texture_size
    }

    /// Side of a tile, in pixels.
    pub fn get_tile_size(&self) -> (n: i32)
        ensures
            n == self.tile_config.width,
    {
        self.tile_config.width
    }

    /// Number of values per pixel.
    pub fn get_num_channels(&self) -> (n: usize)
        ensures
            n == self.format.channel.spec_num_channels(),
    {
        self.format.get_num_channels()
    }

    /// The texture format that holds the pixels.
    pub fn get_internal_format(&self) -> (f: i32)
        ensures
            f == self.format.channel.spec_internal_format(),
    {
        self.format.get_internal_format()
    }

    /// The file extension of the tiles.
    pub fn get_ext_file(&self) -> (s: &'static str)
        ensures
            s@ == self.format.ext.spec_ext_file(),
    {
        self.format.get_ext_file()
    }

    /// The pixels that stand for a tile that is missing.
    pub fn get_blank_tile(&self) -> (tile: &TileArrayBufferImage)
        ensures
            *tile == self.tile_config.blank_tile,
    {
        self.tile_config.get_blank_tile()
    }

    /// Depth of the deepest cells that an atlas entry is bound to.
    pub fn max_depth(&self) -> (d: u8)
        ensures
            d == self.max_depth_texture,
    {
        self.max_depth_texture
    }

    /// Depth of the deepest cells that an atlas entry is bound to.
    pub fn get_max_depth_texture(&self) -> (d: u8)
        ensures
            d == self.max_depth_texture,
    {
        self.max_depth_texture
    }

    /// Depth of the deepest tiles.
    pub fn get_max_depth_tile(&self) -> (d: u8)
        ensures
            d == self.max_depth_tile,
    {
        self.max_depth_tile
    }

    /// Depth of the shallowest tiles.
    pub fn get_min_depth_tile(&self) -> (d: u8)
        ensures
            d == self.min_depth_tile,
    {
        self.min_depth_tile
    }

    /// Number of atlas entries.
    pub fn num_textures(&self) -> (n: usize)
        ensures
            n == self.num_textures,
    {
        self.num_textures
    }

    /// Atlas entries along one side of a slice.
    pub fn num_textures_by_side_slice(&self) -> (n: i32)
        ensures
            n == self.num_textures_by_side_slice,
    {
        self.num_textures_by_side_slice
    }

    /// Atlas entries in one slice.
    pub fn num_textures_by_slice(&self) -> (n: i32)
        ensures
            n == self.num_textures_by_slice,
    {
        self.num_textures_by_slice
    }

    /// Slices of the atlas.
    pub fn num_slices(&self) -> (n: i32)
        ensures
            n == self.num_slices,
    {
        self.num_slices
    }

    /// The format of the tiles.
    pub fn format(&self) -> (f: ImageFormatType)
        ensures
            f == self.format,
    {
        self.format
    }

    /// The format of the tiles.
    pub fn get_format(&self) -> (f: ImageFormatType)
        ensures
            f == self.format,
    {
        self.format
    }

    /// Address under which the tiles are found.
    pub fn get_root_url(&self) -> (s: &str)
        ensures
            s@ == self.root_url@,
    {
        self.root_url.as_str()
    }

    /// Identifier of the survey.
    pub fn get_creator_did(&self) -> (s: &str)
        ensures
            s@ == self.creator_did@,
    {
        self.creator_did.as_str()
    }

    /// Frame that the survey's cells are laid out in.
    pub fn get_frame(&self) -> (f: CooSystem)
        ensures
            f == self.frame,
    {
        self.frame
    }
}

} // verus!
