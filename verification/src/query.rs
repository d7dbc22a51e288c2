//! Descriptors of the resources that the renderer fetches: where each is
//! found and the key under which a request for it is known.
use crate::cell::HEALPixCell;
use crate::config::HiPSConfig;
use crate::format::ImageFormatType;
use crate::text::{
    all_digits, decimal, is_digit, lemma_decimal_injective, lemma_decimal_value,
    lemma_digits_then_rest, push_decimal, starts_with_no_digit,
};
use vstd::prelude::*;
use vstd::string::StringExecFns;

verus! {

/// An address.
pub type Url = String;

/// The key under which a request is known.
pub type QueryId = String;

/// The identifier of a survey.
pub type CreatorDid = String;

/// A descriptor of a resource to fetch.
pub trait Query: Sized {
    /// The key of the resource, as a sequence of characters.
    spec fn spec_id(&self) -> Seq<char>;

    /// The key under which a request for the resource is known.
    fn id(&self) -> (id: &QueryId)
        ensures
            id@ == self.spec_id(),
    ;
}

/// The channel that a query without a channel stands for.
pub open spec fn channel_or_zero(channel: Option<u32>) -> nat {
    match channel {
        Some(c) => c as nat,
        None => 0,
    }
}

/// What the channel adds to a resource's name: nothing for the first
/// channel, else an underscore and the channel's number.
pub open spec fn channel_suffix(channel: Option<u32>) -> Seq<char> {
    if channel_or_zero(channel) > 0 {
        "_"@ + decimal(channel_or_zero(channel))
    } else {
        Seq::empty()
    }
}

/// First index of the directory that holds the tile of index `idx`.
pub open spec fn dir_index(idx: nat) -> nat {
    (idx / 10000) * 10000
}

/// Where the tile of the cell `(depth, idx)` is found:
/// `<root>/Norder<depth>/Dir<dir>/Npix<idx>[_<channel>].<ext>`.
pub open spec fn spec_tile_url(
    root: Seq<char>,
    depth: nat,
    idx: nat,
    channel: Option<u32>,
    ext: Seq<char>,
) -> Seq<char> {
    root + "/Norder"@ + decimal(depth) + "/Dir"@ + decimal(dir_index(idx)) + "/Npix"@ + decimal(
        idx,
    ) + channel_suffix(channel) + "."@ + ext
}

/// The character that stands between the numbers of a key.
pub open spec fn key_mark() -> Seq<char> {
    seq!['_']
}

/// What tells one tile of a survey from another in its key: depth, index
/// and channel, with a mark between them.
pub open spec fn spec_tile_digits(depth: nat, idx: nat, channel: Option<u32>) -> Seq<char> {
    decimal(depth) + key_mark() + decimal(idx) + key_mark() + decimal(channel_or_zero(channel))
}

/// The key of the tile of the cell `(depth, idx)`: the survey's
/// identifier, then depth, index and channel with a mark between them,
/// then the extension.
pub open spec fn spec_tile_id(
    creator_did: Seq<char>,
    depth: nat,
    idx: nat,
    channel: Option<u32>,
    ext: Seq<char>,
) -> Seq<char> {
    creator_did + spec_tile_digits(depth, idx, channel) + ext
}

/// Where the mosaic of all the cells of depth 3 is found.
pub open spec fn spec_allsky_url(root: Seq<char>, channel: Option<u32>, ext: Seq<char>) -> Seq<
    char,
> {
    root + "/Norder3/Allsky"@ + channel_suffix(channel) + "."@ + ext
}

/// The key of the mosaic of all the cells of depth 3.
pub open spec fn spec_allsky_id(creator_did: Seq<char>, channel: Option<u32>, ext: Seq<char>) -> Seq<
    char,
> {
    creator_did + "Allsky"@ + ext + decimal(channel_or_zero(channel))
}

/// Where the resource that tells the pixels' scaling is found.
pub open spec fn spec_pixel_metadata_url(root: Seq<char>, ext: Seq<char>) -> Seq<char> {
    root + "/Norder3/Allsky."@ + ext
}

/// The key of the resource that tells the pixels' scaling.
pub open spec fn spec_pixel_metadata_id(creator_did: Seq<char>, ext: Seq<char>) -> Seq<char> {
    creator_did + "Allsky"@ + ext
}

/// Appends what the channel adds to a resource's name.
fn push_channel_suffix(out: &mut String, channel: Option<u32>)
    ensures
        final(out)@ == old(out)@ + channel_suffix(channel),
{
    if let Some(c) = channel {
        if c > 0 {
            out.append("_");
            push_decimal(out, c as u64);
            assert(out@ =~= old(out)@ + channel_suffix(channel));
            return;
        }
    }
    assert(out@ =~= old(out)@ + channel_suffix(channel));
}

/// The channel's number, zero when there is none.
fn channel_number(channel: Option<u32>) -> (c: u64)
    ensures
        c == channel_or_zero(channel),
{
    match channel {
        Some(c) => c as u64,
        None => 0,
    }
}

/// The query for one tile of a survey.
#[derive(Eq, Hash, PartialEq, Clone, Debug)]
pub struct Tile {
    pub cell: HEALPixCell,
    pub format: ImageFormatType,
    /// Identifier of the survey.
    pub hips_cdid: CreatorDid,
    /// Where the tile is found.
    pub url: Url,
    pub id: QueryId,
    pub channel: Option<u32>,
}

impl Tile {
    /// The query for the tile of `cell`, of the channel `channel`, of the
    /// survey that `cfg` configures.
    pub fn new(cell: &HEALPixCell, channel: Option<u32>, cfg: &HiPSConfig) -> (tile: Tile)
        ensures
            tile.cell == *cell,
            tile.channel == channel,
            tile.format == cfg.format,
            tile.hips_cdid@ == cfg.creator_did@,
            tile.url@ == spec_tile_url(
                cfg.root_url@,
                cell.0 as nat,
                cell.1 as nat,
                channel,
                cfg.format.ext.spec_ext_file(),
            ),
            tile.id@ == spec_tile_id(
                cfg.creator_did@,
                cell.0 as nat,
                cell.1 as nat,
                channel,
                cfg.format.ext.spec_ext_file(),
            ),
    {
        let hips_cdid: &str = cfg.get_creator_did();
        let hips_url: &str = cfg.get_root_url();
        let format: ImageFormatType = cfg.get_format();
        let ext: &str = format.get_ext_file();
        let depth: u8 = cell.depth();
        let idx: u64 = cell.idx();
        let dir_idx: u64 = (idx / 10000) * 10000;

        let mut url: String = String::from_str(hips_url);
        url.append("/Norder");
        push_decimal(&mut url, depth as u64);
        url.append("/Dir");
        push_decimal(&mut url, dir_idx);
        url.append("/Npix");
        push_decimal(&mut url, idx);
        push_channel_suffix(&mut url, channel);
        url.append(".");
        url.append(ext);

        let mut id: String = String::from_str(hips_cdid);
        push_decimal(&mut id, depth as u64);
        id.append("_");
        push_decimal(&mut id, idx);
        id.append("_");
        push_decimal(&mut id, channel_number(channel));
        id.append(ext);
        proof {
            reveal_strlit("_");
            assert("_"@ =~= key_mark());
            assert(id@ =~= spec_tile_id(
                cfg.creator_did@,
                cell.0 as nat,
                cell.1 as nat,
                channel,
                cfg.format.ext.spec_ext_file(),
            ));
        }

        Tile { hips_cdid: String::from_str(hips_cdid), url, cell: *cell, format, id, channel }
    }
}

impl Query for Tile {
    open spec fn spec_id(&self) -> Seq<char> {
        self.id@
    }

    fn id(&self) -> (id: &QueryId) {
        &self.id
    }
}

/// The query for the mosaic of all the cells of depth 3.
#[derive(Clone, Debug)]
pub struct Allsky {
    pub format: ImageFormatType,
    pub tile_size: i32,
    pub texture_size: i32,
    pub channel: Option<u32>,
    /// Identifier of the survey.
    pub hips_cdid: CreatorDid,
    /// Where the mosaic is found.
    pub url: Url,
    pub id: QueryId,
}

impl Allsky {
    /// The query for the mosaic of the channel `channel` of the survey that
    /// `cfg` configures.
    pub fn new(cfg: &HiPSConfig, channel: Option<u32>) -> (allsky: Allsky)
        ensures
            allsky.format == cfg.format,
            allsky.tile_size == cfg.tile_config.width,
            allsky.texture_size == cfg.texture_size,
            allsky.channel == channel,
            allsky.hips_cdid@ == cfg.creator_did@,
            allsky.url@ == spec_allsky_url(cfg.root_url@, channel, cfg.format.ext.spec_ext_file()),
            allsky.id@ == spec_allsky_id(
                cfg.creator_did@,
                channel,
                cfg.format.ext.spec_ext_file(),
            ),
    {
        let hips_cdid: String = String::from_str(cfg.get_creator_did());
        let tile_size: i32 = cfg.get_tile_size();
        let texture_size: i32 = cfg.get_texture_size();
        let format: ImageFormatType = cfg.get_format();
        let ext: &str = format.get_ext_file();

        let mut url: String = String::from_str(cfg.get_root_url());
        url.append("/Norder3/Allsky");
        push_channel_suffix(&mut url, channel);
        url.append(".");
        url.append(ext);

        let mut id: String = String::from_str(cfg.get_creator_did());
        id.append("Allsky");
        id.append(ext);
        push_decimal(&mut id, channel_number(channel));

        Allsky { tile_size, texture_size, hips_cdid, url, format, id, channel }
    }
}

impl Query for Allsky {
    open spec fn spec_id(&self) -> Seq<char> {
        self.id@
    }

    fn id(&self) -> (id: &QueryId) {
        &self.id
    }
}

/// The query for the resource that tells the pixels' scaling.
#[derive(Clone, Debug)]
pub struct PixelMetadata {
    pub format: ImageFormatType,
    /// Identifier of the survey.
    pub hips_cdid: CreatorDid,
    /// Where the resource is found.
    pub url: Url,
    pub id: QueryId,
}

impl PixelMetadata {
    /// The query for the scaling of the pixels of the survey that `cfg`
    /// configures.
    pub fn new(cfg: &HiPSConfig) -> (query: PixelMetadata)
        ensures
            query.format == cfg.format,
            query.hips_cdid@ == cfg.creator_did@,
            query.url@ == spec_pixel_metadata_url(cfg.root_url@, cfg.format.ext.spec_ext_file()),
            query.id@ == spec_pixel_metadata_id(
                cfg.creator_did@,
                cfg.format.ext.spec_ext_file(),
            ),
    {
        let hips_cdid: String = String::from_str(cfg.get_creator_did());
        let format: ImageFormatType = cfg.get_format();
        let ext: &str = format.get_ext_file();

        let mut url: String = String::from_str(cfg.get_root_url());
        url.append("/Norder3/Allsky.");
        url.append(ext);

        let mut id: String = String::from_str(cfg.get_creator_did());
        id.append("Allsky");
        id.append(ext);

        PixelMetadata { hips_cdid, url, format, id }
    }
}

impl Query for PixelMetadata {
    open spec fn spec_id(&self) -> Seq<char> {
        self.id@
    }

    fn id(&self) -> (id: &QueryId) {
        &self.id
    }
}

/// How a coverage is drawn.
#[derive(Clone, Debug)]
pub struct MOCOptions {
    pub uuid: String,
    pub perimeter: bool,
    pub filled: bool,
    pub edges: bool,
}

/// The query for the coverage of a survey.
#[derive(Clone, Debug)]
pub struct Moc {
    /// Where the coverage is found.
    pub url: Url,
    pub params: MOCOptions,
    pub hips_cdid: CreatorDid,
}

impl Moc {
    /// The query for the coverage found at `url`.
    pub fn new(url: String, hips_cdid: CreatorDid, params: MOCOptions) -> (moc: Moc)
        ensures
            moc.url == url,
            moc.hips_cdid == hips_cdid,
            moc.params == params,
    {
        Moc { url, params, hips_cdid }
    }
}

impl Query for Moc {
    /// A coverage is known under the address it is found at.
    open spec fn spec_id(&self) -> Seq<char> {
        self.url@
    }

    fn id(&self) -> (id: &QueryId) {
        &self.url
    }
}

/// Two sequences that are equal once the same prefix and the same suffix
/// are put around them are equal.
pub proof fn lemma_cancel_affixes(
    prefix: Seq<char>,
    a: Seq<char>,
    b: Seq<char>,
    suffix: Seq<char>,
)
    requires
        prefix + a + suffix == prefix + b + suffix,
    ensures
        a == b,
{
    let x = prefix + a + suffix;
    let y = prefix + b + suffix;
    assert(x.len() == prefix.len() + a.len() + suffix.len());
    assert(y.len() == prefix.len() + b.len() + suffix.len());
    assert forall|i: int| 0 <= i < a.len() implies a[i] == b[i] by {
        assert(x[prefix.len() + i] == a[i]);
        assert(y[prefix.len() + i] == b[i]);
    }
    assert(a =~= b);
}

/// The keys of two tiles of one survey and one format are the same key
/// exactly when what they hold between the survey's identifier and the
/// extension is the same.
pub proof fn lemma_tile_id_equal_iff_digits_equal(
    creator_did: Seq<char>,
    ext: Seq<char>,
    depth1: nat,
    idx1: nat,
    channel1: Option<u32>,
    depth2: nat,
    idx2: nat,
    channel2: Option<u32>,
)
    ensures
        spec_tile_id(creator_did, depth1, idx1, channel1, ext) == spec_tile_id(
            creator_did,
            depth2,
            idx2,
            channel2,
            ext,
        ) <==> spec_tile_digits(depth1, idx1, channel1) == spec_tile_digits(
            depth2,
            idx2,
            channel2,
        ),
{
    if spec_tile_id(creator_did, depth1, idx1, channel1, ext) == spec_tile_id(
        creator_did,
        depth2,
        idx2,
        channel2,
        ext,
    ) {
        lemma_cancel_affixes(
            creator_did,
            spec_tile_digits(depth1, idx1, channel1),
            spec_tile_digits(depth2, idx2, channel2),
            ext,
        );
    }
}

/// The mark is no digit, and the decimal writing of a number holds digits
/// only.
proof fn lemma_mark_is_no_digit(n: nat)
    ensures
        all_digits(decimal(n)),
        key_mark().len() == 1,
        !is_digit(key_mark()[0]),
{
    lemma_decimal_value(n);
}

/// Two tiles of one survey and one format that have the same key are the
/// same tile: they agree in depth, in index and in channel, where no
/// channel counts as the channel 0.
pub proof fn lemma_tile_id_injective(
    creator_did: Seq<char>,
    ext: Seq<char>,
    depth1: nat,
    idx1: nat,
    channel1: Option<u32>,
    depth2: nat,
    idx2: nat,
    channel2: Option<u32>,
)
    requires
        spec_tile_id(creator_did, depth1, idx1, channel1, ext) == spec_tile_id(
            creator_did,
            depth2,
            idx2,
            channel2,
            ext,
        ),
    ensures
        depth1 == depth2,
        idx1 == idx2,
        channel_or_zero(channel1) == channel_or_zero(channel2),
{
    lemma_tile_id_equal_iff_digits_equal(
        creator_did,
        ext,
        depth1,
        idx1,
        channel1,
        depth2,
        idx2,
        channel2,
    );
    let mark = key_mark();
    let e = Seq::<char>::empty();
    let d1 = decimal(depth1);
    let d2 = decimal(depth2);
    let i1 = decimal(idx1);
    let i2 = decimal(idx2);
    let c1 = decimal(channel_or_zero(channel1));
    let c2 = decimal(channel_or_zero(channel2));
    lemma_mark_is_no_digit(depth1);
    lemma_mark_is_no_digit(depth2);
    lemma_mark_is_no_digit(idx1);
    lemma_mark_is_no_digit(idx2);
    // depth, then the rest
    let after_depth1 = mark + (i1 + (mark + c1));
    let after_depth2 = mark + (i2 + (mark + c2));
    assert(spec_tile_digits(depth1, idx1, channel1) =~= d1 + after_depth1);
    assert(spec_tile_digits(depth2, idx2, channel2) =~= d2 + after_depth2);
    assert(after_depth1[0] == mark[0] && after_depth2[0] == mark[0]);
    lemma_digits_then_rest(d1, after_depth1, d2, after_depth2);
    lemma_decimal_injective(depth1, depth2);
    // index, then the rest
    let after_idx1 = mark + c1;
    let after_idx2 = mark + c2;
    assert(after_depth1 =~= mark + (i1 + after_idx1) + e);
    assert(after_depth2 =~= mark + (i2 + after_idx2) + e);
    lemma_cancel_affixes(mark, i1 + after_idx1, i2 + after_idx2, e);
    assert(after_idx1[0] == mark[0] && after_idx2[0] == mark[0]);
    lemma_digits_then_rest(i1, after_idx1, i2, after_idx2);
    lemma_decimal_injective(idx1, idx2);
    // channel
    assert(after_idx1 =~= mark + c1 + e);
    assert(after_idx2 =~= mark + c2 + e);
    lemma_cancel_affixes(mark, c1, c2, e);
    lemma_decimal_injective(channel_or_zero(channel1), channel_or_zero(channel2));
}

/// Two queries for one survey and one format that differ in the cell or,
/// no channel counting as the channel 0, in the channel, have different
/// keys.
pub proof fn lemma_distinct_tiles_have_distinct_ids(
    creator_did: Seq<char>,
    ext: Seq<char>,
    cell1: HEALPixCell,
    channel1: Option<u32>,
    cell2: HEALPixCell,
    channel2: Option<u32>,
)
    requires
        cell1 != cell2 || channel_or_zero(channel1) != channel_or_zero(channel2),
    ensures
        spec_tile_id(creator_did, cell1.0 as nat, cell1.1 as nat, channel1, ext) != spec_tile_id(
            creator_did,
            cell2.0 as nat,
            cell2.1 as nat,
            channel2,
            ext,
        ),
{
    if spec_tile_id(creator_did, cell1.0 as nat, cell1.1 as nat, channel1, ext) == spec_tile_id(
        creator_did,
        cell2.0 as nat,
        cell2.1 as nat,
        channel2,
        ext,
    ) {
        lemma_tile_id_injective(
            creator_did,
            ext,
            cell1.0 as nat,
            cell1.1 as nat,
            channel1,
            cell2.0 as nat,
            cell2.1 as nat,
            channel2,
        );
    }
}

/// What follows the index in a tile's address: the index and the channel.
pub open spec fn spec_url_from_index(idx: nat, channel: Option<u32>) -> Seq<char> {
    "/Npix"@ + (decimal(idx) + channel_suffix(channel))
}

/// What follows the depth in a tile's address: the directory, the index
/// and the channel.
pub open spec fn spec_url_from_dir(idx: nat, channel: Option<u32>) -> Seq<char> {
    "/Dir"@ + (decimal(dir_index(idx)) + spec_url_from_index(idx, channel))
}

/// What stands in a tile's address between the survey's address and the
/// extension.
pub open spec fn spec_url_middle(depth: nat, idx: nat, channel: Option<u32>) -> Seq<char> {
    "/Norder"@ + (decimal(depth) + spec_url_from_dir(idx, channel))
}

/// A tile's address is the survey's address, what tells the tile, a dot
/// and the extension.
proof fn lemma_tile_url_parts(
    root: Seq<char>,
    depth: nat,
    idx: nat,
    channel: Option<u32>,
    ext: Seq<char>,
)
    ensures
        spec_tile_url(root, depth, idx, channel, ext) == root + spec_url_middle(
            depth,
            idx,
            channel,
        ) + ("."@ + ext),
{
    assert(spec_tile_url(root, depth, idx, channel, ext) =~= root + spec_url_middle(
        depth,
        idx,
        channel,
    ) + ("."@ + ext));
}

/// A number written after a mark is read in one way only: where two
/// numbers, each after the same mark and each followed by nothing or by a
/// character that is no digit, make the same text, the numbers are the
/// same and so is what follows them.
proof fn lemma_marked_number(
    mark: Seq<char>,
    a: nat,
    rest_a: Seq<char>,
    b: nat,
    rest_b: Seq<char>,
)
    requires
        starts_with_no_digit(rest_a),
        starts_with_no_digit(rest_b),
        mark + (decimal(a) + rest_a) == mark + (decimal(b) + rest_b),
    ensures
        a == b,
        rest_a == rest_b,
{
    let e = Seq::<char>::empty();
    lemma_decimal_value(a);
    lemma_decimal_value(b);
    assert(mark + (decimal(a) + rest_a) + e =~= mark + (decimal(a) + rest_a));
    assert(mark + (decimal(b) + rest_b) + e =~= mark + (decimal(b) + rest_b));
    lemma_cancel_affixes(mark, decimal(a) + rest_a, decimal(b) + rest_b, e);
    lemma_digits_then_rest(decimal(a), rest_a, decimal(b), rest_b);
    lemma_decimal_injective(a, b);
}

/// What the channel adds to an address starts with no digit, and tells
/// the channel.
proof fn lemma_channel_suffix(channel1: Option<u32>, channel2: Option<u32>)
    ensures
        starts_with_no_digit(channel_suffix(channel1)),
        channel_suffix(channel1) == channel_suffix(channel2) ==> channel_or_zero(channel1)
            == channel_or_zero(channel2),
{
    reveal_strlit("_");
    let e = Seq::<char>::empty();
    let c1 = channel_or_zero(channel1);
    let c2 = channel_or_zero(channel2);
    lemma_decimal_value(c1);
    lemma_decimal_value(c2);
    if c1 > 0 {
        assert(channel_suffix(channel1)[0] == '_');
    }
    if channel_suffix(channel1) == channel_suffix(channel2) {
        if c1 > 0 && c2 > 0 {
            lemma_marked_number("_"@, c1, e, c2, e);
        } else if c1 > 0 {
            assert(channel_suffix(channel1).len() > 0);
        } else if c2 > 0 {
            assert(channel_suffix(channel2).len() > 0);
        }
    }
}

/// The marks of an address start with no digit.
proof fn lemma_url_marks(idx: nat, channel: Option<u32>)
    ensures
        starts_with_no_digit(spec_url_from_index(idx, channel)),
        starts_with_no_digit(spec_url_from_dir(idx, channel)),
{
    reveal_strlit("/Dir");
    reveal_strlit("/Npix");
    assert(spec_url_from_index(idx, channel)[0] == '/');
    assert(spec_url_from_dir(idx, channel)[0] == '/');
}

/// Two tiles of one survey and one format that are found at the same
/// address are the same tile: they agree in depth, in index and in
/// channel, where no channel counts as the channel 0.
pub proof fn lemma_tile_url_injective(
    root: Seq<char>,
    ext: Seq<char>,
    depth1: nat,
    idx1: nat,
    channel1: Option<u32>,
    depth2: nat,
    idx2: nat,
    channel2: Option<u32>,
)
    requires
        spec_tile_url(root, depth1, idx1, channel1, ext) == spec_tile_url(
            root,
            depth2,
            idx2,
            channel2,
            ext,
        ),
    ensures
        depth1 == depth2,
        idx1 == idx2,
        channel_or_zero(channel1) == channel_or_zero(channel2),
{
    lemma_tile_url_parts(root, depth1, idx1, channel1, ext);
    lemma_tile_url_parts(root, depth2, idx2, channel2, ext);
    lemma_cancel_affixes(
        root,
        spec_url_middle(depth1, idx1, channel1),
        spec_url_middle(depth2, idx2, channel2),
        "."@ + ext,
    );
    lemma_url_marks(idx1, channel1);
    lemma_url_marks(idx2, channel2);
    lemma_channel_suffix(channel1, channel2);
    lemma_channel_suffix(channel2, channel1);
    lemma_marked_number(
        "/Norder"@,
        depth1,
        spec_url_from_dir(idx1, channel1),
        depth2,
        spec_url_from_dir(idx2, channel2),
    );
    lemma_marked_number(
        "/Dir"@,
        dir_index(idx1),
        spec_url_from_index(idx1, channel1),
        dir_index(idx2),
        spec_url_from_index(idx2, channel2),
    );
    lemma_marked_number(
        "/Npix"@,
        idx1,
        channel_suffix(channel1),
        idx2,
        channel_suffix(channel2),
    );
}

} // verus!
