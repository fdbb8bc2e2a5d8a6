//! The index of a tar tile container: classifies each archive entry as a
//! tile (`dir/z/y/x.<format>[.gz|.br]`), a metadata document, or noise,
//! checks that one format and one compression rule the archive, and
//! builds the coverage pyramid.

use vstd::prelude::*;

use crate::types::blob::Blob;
use crate::types::blob::ByteRange;
use crate::types::bbox::TileBBox;
use crate::types::coord::TileCoord3;
use crate::types::format::TileCompression;
use crate::types::format::TileFormat;
use crate::types::pyramid::TileBBoxPyramide;
use crate::utils::compression::decompress;
use crate::utils::strings::parse_u64;
use crate::utils::strings::split_first_dot;

verus! {

/// The format and compression a tile file name's extension chain denotes.
pub open spec fn spec_classify_ext(e: Seq<char>) -> Option<(TileFormat, TileCompression)> {
    if e == ".png"@ {
        Some((TileFormat::PNG, TileCompression::Uncompressed))
    } else if e == ".png.gz"@ {
        Some((TileFormat::PNG, TileCompression::Gzip))
    } else if e == ".png.br"@ {
        Some((TileFormat::PNG, TileCompression::Brotli))
    } else if e == ".jpg"@ || e == ".jpeg"@ {
        Some((TileFormat::JPG, TileCompression::Uncompressed))
    } else if e == ".jpg.gz"@ || e == ".jpeg.gz"@ {
        Some((TileFormat::JPG, TileCompression::Gzip))
    } else if e == ".jpg.br"@ || e == ".jpeg.br"@ {
        Some((TileFormat::JPG, TileCompression::Brotli))
    } else if e == ".webp"@ {
        Some((TileFormat::WEBP, TileCompression::Uncompressed))
    } else if e == ".webp.gz"@ {
        Some((TileFormat::WEBP, TileCompression::Gzip))
    } else if e == ".webp.br"@ {
        Some((TileFormat::WEBP, TileCompression::Brotli))
    } else if e == ".pbf"@ {
        Some((TileFormat::PBF, TileCompression::Uncompressed))
    } else if e == ".pbf.gz"@ {
        Some((TileFormat::PBF, TileCompression::Gzip))
    } else if e == ".pbf.br"@ {
        Some((TileFormat::PBF, TileCompression::Brotli))
    } else {
        None
    }
}

/// The compression a metadata file name denotes.
pub open spec fn spec_meta_name(s: Seq<char>) -> Option<TileCompression> {
    if s == "meta.json"@ || s == "tiles.json"@ || s == "metadata.json"@ {
        Some(TileCompression::Uncompressed)
    } else if s == "meta.json.gz"@ || s == "tiles.json.gz"@ || s == "metadata.json.gz"@ {
        Some(TileCompression::Gzip)
    } else if s == "meta.json.br"@ || s == "tiles.json.br"@ || s == "metadata.json.br"@ {
        Some(TileCompression::Brotli)
    } else {
        None
    }
}

fn classify_ext(e: &String) -> (r: Option<(TileFormat, TileCompression)>)
    ensures
        r == spec_classify_ext(e@),
{
    if *e == ".png".to_owned() {
        Some((TileFormat::PNG, TileCompression::Uncompressed))
    } else if *e == ".png.gz".to_owned() {
        Some((TileFormat::PNG, TileCompression::Gzip))
    } else if *e == ".png.br".to_owned() {
        Some((TileFormat::PNG, TileCompression::Brotli))
    } else if *e == ".jpg".to_owned() || *e == ".jpeg".to_owned() {
        Some((TileFormat::JPG, TileCompression::Uncompressed))
    } else if *e == ".jpg.gz".to_owned() || *e == ".jpeg.gz".to_owned() {
        Some((TileFormat::JPG, TileCompression::Gzip))
    } else if *e == ".jpg.br".to_owned() || *e == ".jpeg.br".to_owned() {
        Some((TileFormat::JPG, TileCompression::Brotli))
    } else if *e == ".webp".to_owned() {
        Some((TileFormat::WEBP, TileCompression::Uncompressed))
    } else if *e == ".webp.gz".to_owned() {
        Some((TileFormat::WEBP, TileCompression::Gzip))
    } else if *e == ".webp.br".to_owned() {
        Some((TileFormat::WEBP, TileCompression::Brotli))
    } else if *e == ".pbf".to_owned() {
        Some((TileFormat::PBF, TileCompression::Uncompressed))
    } else if *e == ".pbf.gz".to_owned() {
        Some((TileFormat::PBF, TileCompression::Gzip))
    } else if *e == ".pbf.br".to_owned() {
        Some((TileFormat::PBF, TileCompression::Brotli))
    } else {
        None
    }
}

fn meta_name(s: &String) -> (r: Option<TileCompression>)
    ensures
        r == spec_meta_name(s@),
{
    if *s == "meta.json".to_owned() || *s == "tiles.json".to_owned() || *s
        == "metadata.json".to_owned() {
        Some(TileCompression::Uncompressed)
    } else if *s == "meta.json.gz".to_owned() || *s == "tiles.json.gz".to_owned() || *s
        == "metadata.json.gz".to_owned() {
        Some(TileCompression::Gzip)
    } else if *s == "meta.json.br".to_owned() || *s == "tiles.json.br".to_owned() || *s
        == "metadata.json.br".to_owned() {
        Some(TileCompression::Brotli)
    } else {
        None
    }
}

/// One entry of an archive: its path split into components, where its
/// bytes sit, and — for small documents — the bytes themselves.
#[derive(Debug)]
pub struct TarEntry {
    pub segments: Vec<String>,
    pub offset: u64,
    pub size: u64,
    pub content: Option<Blob>,
    pub is_regular: bool,
}

/// Why an archive was rejected as a tile container.
#[derive(Clone, Copy, Debug, PartialEq, Eq, Structural)]
pub enum TarIndexError {
    InvalidTilePath,
    UnknownExtension,
    MixedFormats,
    MixedCompressions,
    MissingMetaContent,
    MetaDecompression,
    NoTiles,
}

/// The index built from an archive: the metadata document, each tile's
/// coordinate and byte range, the archive's single format and
/// compression, and the coverage pyramid.
#[derive(Debug)]
pub struct TarIndex {
    pub meta: Blob,
    pub tiles: Vec<(TileCoord3, ByteRange)>,
    pub tile_format: TileFormat,
    pub tile_compression: TileCompression,
    pub bbox_pyramid: TileBBoxPyramide,
}

impl TarIndex {
    /// The index is consistent: every tile's coordinate is valid, sits
    /// inside the pyramid, and appears once.
    pub open spec fn wf(self) -> bool {
        &&& self.bbox_pyramid.wf()
        &&& forall|i: int|
            0 <= i < self.tiles@.len() ==> {
                let c = (#[trigger] self.tiles@[i]).0;
                c.is_valid() && self.bbox_pyramid@[c.z as int].spec_contains(c)
            }
        &&& forall|i: int, j: int|
            0 <= i < j < self.tiles@.len() ==> (#[trigger] self.tiles@[i]).0 != (
            #[trigger] self.tiles@[j]).0
    }
}

/// A tile list after recording a coordinate: a coordinate seen again
/// replaces its earlier range in place; a new one goes to the end.
pub open spec fn spec_tiles_put(
    tiles: Seq<(TileCoord3, ByteRange)>,
    c: TileCoord3,
    rg: ByteRange,
) -> Seq<(TileCoord3, ByteRange)>
    decreases tiles.len(),
{
    if tiles.len() == 0 {
        seq![(c, rg)]
    } else if tiles[0].0 == c {
        seq![(c, rg)] + tiles.subrange(1, tiles.len() as int)
    } else {
        seq![tiles[0]] + spec_tiles_put(tiles.subrange(1, tiles.len() as int), c, rg)
    }
}

/// Whether a path component is a number that addresses a coordinate axis.
pub open spec fn spec_seg_numeric(s: Seq<char>) -> bool {
    s.len() > 0 && crate::utils::strings::all_digits(s) && crate::utils::strings::digits_val(s)
        < 0x1_0000_0000_0000_0000
}

/// The index state as the scan walks the entries: metadata, tiles, the
/// format and compression seen so far, and the coverage pyramid.
pub struct TarScanState {
    pub meta: Seq<u8>,
    pub tiles: Seq<(TileCoord3, ByteRange)>,
    pub tile_format: Option<TileFormat>,
    pub tile_compression: Option<TileCompression>,
    pub pyramid: Seq<TileBBox>,
}

/// What scanning the remaining entries makes of a state: tiles recorded
/// (later duplicates replacing earlier ones), formats and compressions
/// held to one value each, metadata decompressed per its name, everything
/// else ignored.
pub open spec fn spec_tar_scan(entries: Seq<TarEntry>, st: TarScanState) -> Result<
    TarScanState,
    TarIndexError,
>
    decreases entries.len(),
{
    if entries.len() == 0 {
        Ok(st)
    } else {
        let e = entries[0];
        let rest = entries.subrange(1, entries.len() as int);
        if !e.is_regular {
            spec_tar_scan(rest, st)
        } else if e.segments@.len() == 4 {
            let s1 = e.segments@[1]@;
            let s2 = e.segments@[2]@;
            let s3 = e.segments@[3]@;
            let xp = s3.subrange(0, crate::utils::strings::scan_dot(s3, 0));
            let ext = s3.subrange(crate::utils::strings::scan_dot(s3, 0), s3.len() as int);
            if !spec_seg_numeric(s1) {
                Err(TarIndexError::InvalidTilePath)
            } else if !spec_seg_numeric(s2) {
                Err(TarIndexError::InvalidTilePath)
            } else if !spec_seg_numeric(xp) {
                Err(TarIndexError::InvalidTilePath)
            } else {
                match spec_classify_ext(ext) {
                    None => Err(TarIndexError::UnknownExtension),
                    Some((f, c)) => {
                        if st.tile_format matches Some(f0) && f0 != f {
                            Err(TarIndexError::MixedFormats)
                        } else if st.tile_compression matches Some(c0) && c0 != c {
                            Err(TarIndexError::MixedCompressions)
                        } else {
                            let zv = crate::utils::strings::digits_val(s1);
                            let yv = crate::utils::strings::digits_val(s2);
                            let xv = crate::utils::strings::digits_val(xp);
                            if !(zv <= 32 && xv < crate::types::coord::pow2(zv) && yv
                                < crate::types::coord::pow2(zv)) {
                                Err(TarIndexError::InvalidTilePath)
                            } else {
                                let coord = TileCoord3 { x: xv as u32, y: yv as u32, z: zv as u8 };
                                spec_tar_scan(
                                    rest,
                                    TarScanState {
                                        meta: st.meta,
                                        tiles: spec_tiles_put(
                                            st.tiles,
                                            coord,
                                            ByteRange { offset: e.offset, length: e.size },
                                        ),
                                        tile_format: Some(f),
                                        tile_compression: Some(c),
                                        pyramid: st.pyramid.update(
                                            zv as int,
                                            st.pyramid[zv as int].spec_include(
                                                xv as int,
                                                yv as int,
                                            ),
                                        ),
                                    },
                                )
                            }
                        }
                    },
                }
            }
        } else if e.segments@.len() == 2 {
            match spec_meta_name(e.segments@[1]@) {
                None => spec_tar_scan(rest, st),
                Some(mc) => match e.content {
                    None => Err(TarIndexError::MissingMetaContent),
                    Some(b) => match crate::utils::compression::spec_decompress(b@, mc) {
                        None => Err(TarIndexError::MetaDecompression),
                        Some(m) => spec_tar_scan(
                            rest,
                            TarScanState {
                                meta: m,
                                tiles: st.tiles,
                                tile_format: st.tile_format,
                                tile_compression: st.tile_compression,
                                pyramid: st.pyramid,
                            },
                        ),
                    },
                },
            }
        } else {
            spec_tar_scan(rest, st)
        }
    }
}

/// The scan's starting state: no metadata, no tiles, an empty pyramid.
pub open spec fn spec_tar_init() -> TarScanState {
    TarScanState {
        meta: Seq::empty(),
        tiles: Seq::empty(),
        tile_format: None,
        tile_compression: None,
        pyramid: Seq::new(33, |i: int| TileBBox::spec_empty(i as u8)),
    }
}

/// What an entry list's index is: the scan's final state, which must have
/// seen at least one tile.
pub open spec fn spec_tar_index(entries: Seq<TarEntry>) -> Result<TarScanState, TarIndexError> {
    match spec_tar_scan(entries, spec_tar_init()) {
        Err(e) => Err(e),
        Ok(st) => if st.tile_format is Some && st.tile_compression is Some {
            Ok(st)
        } else {
            Err(TarIndexError::NoTiles)
        },
    }
}

/// Builds the index of an archive: exactly what the scan above makes of
/// the entries. A three-component path below the root directory is a
/// tile: level, row, then column with the extension chain; a
/// one-component metadata name supplies the metadata, decompressed per
/// its extension; other entries are ignored. All tiles must agree on one
/// format and one compression, and the archive must hold at least one
/// tile.
pub fn build_tar_index(entries: Vec<TarEntry>) -> (r: Result<TarIndex, TarIndexError>)
    ensures
        match spec_tar_index(entries@) {
            Err(e) => r == Err::<TarIndex, TarIndexError>(e),
            Ok(st) => (r matches Ok(idx) && {
                &&& idx.wf()
                &&& idx.meta@ == st.meta
                &&& idx.tiles@ == st.tiles
                &&& Some(idx.tile_format) == st.tile_format
                &&& Some(idx.tile_compression) == st.tile_compression
                &&& idx.bbox_pyramid@ == st.pyramid
            }),
        },
{
    let ghost entries0 = entries@;
    let mut meta = Blob::empty();
    let mut tiles: Vec<(TileCoord3, ByteRange)> = Vec::new();
    let mut tile_format: Option<TileFormat> = None;
    let mut tile_compression: Option<TileCompression> = None;
    let mut bbox_pyramid = TileBBoxPyramide::new_empty();
    let mut rest = entries;
    proof {
        assert(bbox_pyramid@ =~= spec_tar_init().pyramid);
        assert(meta@ =~= spec_tar_init().meta);
        assert(tiles@ =~= spec_tar_init().tiles);
        assert(TarScanState {
            meta: meta@,
            tiles: tiles@,
            tile_format,
            tile_compression,
            pyramid: bbox_pyramid@,
        } == spec_tar_init());
    }
    while rest.len() > 0
        invariant
            bbox_pyramid.wf(),
            forall|i: int|
                0 <= i < tiles@.len() ==> {
                    let c = (#[trigger] tiles@[i]).0;
                    c.is_valid() && bbox_pyramid@[c.z as int].spec_contains(c)
                },
            forall|i: int, j: int|
                0 <= i < j < tiles@.len() ==> (#[trigger] tiles@[i]).0 != (
                #[trigger] tiles@[j]).0,
            entries0 == entries@,
            spec_tar_scan(entries0, spec_tar_init()) == spec_tar_scan(
                rest@,
                TarScanState {
                    meta: meta@,
                    tiles: tiles@,
                    tile_format,
                    tile_compression,
                    pyramid: bbox_pyramid@,
                },
            ),
        decreases rest@.len(),
    {
        let ghost pre = rest@;
        let ghost st = TarScanState {
            meta: meta@,
            tiles: tiles@,
            tile_format,
            tile_compression,
            pyramid: bbox_pyramid@,
        };
        let entry = rest.remove(0);
        proof {
            assert(entry == pre[0]);
            assert(rest@ =~= pre.subrange(1, pre.len() as int));
        }
        if !entry.is_regular {
            proof {
                assert(spec_tar_scan(pre, st) == spec_tar_scan(rest@, st));
            }
            continue ;
        }
        if entry.segments.len() == 4 {
            let ghost s1 = entry.segments@[1]@;
            let ghost s2 = entry.segments@[2]@;
            let ghost s3 = entry.segments@[3]@;
            let z = match parse_u64(entry.segments[1].as_str()) {
                Some(v) => v,
                None => {
                    proof {
                        assert(spec_tar_scan(pre, st) == Err::<TarScanState, TarIndexError>(TarIndexError::InvalidTilePath));
                    }
                    return Err(TarIndexError::InvalidTilePath);
                },
            };
            let y = match parse_u64(entry.segments[2].as_str()) {
                Some(v) => v,
                None => {
                    proof {
                        assert(spec_tar_scan(pre, st) == Err::<TarScanState, TarIndexError>(TarIndexError::InvalidTilePath));
                    }
                    return Err(TarIndexError::InvalidTilePath);
                },
            };
            let (x_part, ext) = split_first_dot(entry.segments[3].as_str());
            let x = match parse_u64(x_part.as_str()) {
                Some(v) => v,
                None => {
                    proof {
                        assert(spec_tar_scan(pre, st) == Err::<TarScanState, TarIndexError>(TarIndexError::InvalidTilePath));
                    }
                    return Err(TarIndexError::InvalidTilePath);
                },
            };
            let (this_form, this_comp) = match classify_ext(&ext) {
                Some(fc) => fc,
                None => {
                    proof {
                        assert(spec_tar_scan(pre, st) == Err::<TarScanState, TarIndexError>(TarIndexError::UnknownExtension));
                    }
                    return Err(TarIndexError::UnknownExtension);
                },
            };
            match &tile_format {
                None => {},
                Some(f) => {
                    if !(*f == this_form) {
                        proof {
                            assert(spec_tar_scan(pre, st) == Err::<TarScanState, TarIndexError>(TarIndexError::MixedFormats));
                        }
                        return Err(TarIndexError::MixedFormats);
                    }
                },
            }
            match &tile_compression {
                None => {},
                Some(c) => {
                    if !(*c == this_comp) {
                        proof {
                            assert(spec_tar_scan(pre, st) == Err::<TarScanState, TarIndexError>(TarIndexError::MixedCompressions));
                        }
                        return Err(TarIndexError::MixedCompressions);
                    }
                },
            }
            if z > 32 || x > 0xffff_ffff || y > 0xffff_ffff {
                proof {
                    if z <= 32 {
                        crate::types::coord::lemma_pow2_monotone(z as nat, 32);
                        crate::types::coord::lemma_pow2_32();
                    }
                    assert(spec_tar_scan(pre, st) == Err::<TarScanState, TarIndexError>(TarIndexError::InvalidTilePath));
                }
                return Err(TarIndexError::InvalidTilePath);
            }
            let coord = match TileCoord3::new(x as u32, y as u32, z as u8) {
                Ok(c) => c,
                Err(_) => {
                    proof {
                        assert(spec_tar_scan(pre, st) == Err::<TarScanState, TarIndexError>(TarIndexError::InvalidTilePath));
                    }
                    return Err(TarIndexError::InvalidTilePath);
                },
            };
            tile_format = Some(this_form);
            tile_compression = Some(this_comp);
            bbox_pyramid.include_coord(&coord);
            let range = ByteRange { offset: entry.offset, length: entry.size };
            replace_or_push(&mut tiles, coord, range);
            proof {
                assert(spec_tar_scan(pre, st) == spec_tar_scan(
                    rest@,
                    TarScanState {
                        meta: meta@,
                        tiles: tiles@,
                        tile_format,
                        tile_compression,
                        pyramid: bbox_pyramid@,
                    },
                ));
            }
        } else if entry.segments.len() == 2 {
            match meta_name(&entry.segments[1]) {
                None => {
                    proof {
                        assert(spec_tar_scan(pre, st) == spec_tar_scan(rest@, st));
                    }
                },
                Some(comp) => {
                    let content = match entry.content {
                        Some(b) => b,
                        None => {
                            proof {
                                assert(spec_tar_scan(pre, st) == Err::<TarScanState, TarIndexError>(TarIndexError::MissingMetaContent));
                            }
                            return Err(TarIndexError::MissingMetaContent);
                        },
                    };
                    meta = match decompress(content, &comp) {
                        Ok(m) => m,
                        Err(_) => {
                            proof {
                                assert(spec_tar_scan(pre, st) == Err::<TarScanState, TarIndexError>(TarIndexError::MetaDecompression));
                            }
                            return Err(TarIndexError::MetaDecompression);
                        },
                    };
                    proof {
                        assert(spec_tar_scan(pre, st) == spec_tar_scan(
                            rest@,
                            TarScanState {
                                meta: meta@,
                                tiles: tiles@,
                                tile_format,
                                tile_compression,
                                pyramid: bbox_pyramid@,
                            },
                        ));
                    }
                },
            }
        } else {
            proof {
                assert(spec_tar_scan(pre, st) == spec_tar_scan(rest@, st));
            }
        }
    }
    proof {
        assert(spec_tar_scan(rest@, TarScanState {
            meta: meta@,
            tiles: tiles@,
            tile_format,
            tile_compression,
            pyramid: bbox_pyramid@,
        }) == Ok::<TarScanState, TarIndexError>(TarScanState {
            meta: meta@,
            tiles: tiles@,
            tile_format,
            tile_compression,
            pyramid: bbox_pyramid@,
        }));
    }
    let tile_format = match tile_format {
        Some(f) => f,
        None => {
            return Err(TarIndexError::NoTiles);
        },
    };
    let tile_compression = match tile_compression {
        Some(c) => c,
        None => {
            return Err(TarIndexError::NoTiles);
        },
    };
    Ok(TarIndex { meta, tiles, tile_format, tile_compression, bbox_pyramid })
}

proof fn lemma_tiles_put_found(
    tiles: Seq<(TileCoord3, ByteRange)>,
    c: TileCoord3,
    rg: ByteRange,
    i: int,
)
    requires
        0 <= i < tiles.len(),
        tiles[i].0 == c,
        forall|j: int| 0 <= j < i ==> (#[trigger] tiles[j]).0 != c,
    ensures
        spec_tiles_put(tiles, c, rg) == tiles.update(i, (c, rg)),
    decreases i,
{
    let sub = tiles.subrange(1, tiles.len() as int);
    if i == 0 {
        assert(spec_tiles_put(tiles, c, rg) =~= tiles.update(0, (c, rg)));
    } else {
        lemma_tiles_put_found(sub, c, rg, i - 1);
        assert(seq![tiles[0]] + sub.update(i - 1, (c, rg)) =~= tiles.update(i, (c, rg)));
    }
}

proof fn lemma_tiles_put_missing(tiles: Seq<(TileCoord3, ByteRange)>, c: TileCoord3, rg: ByteRange)
    requires
        forall|j: int| 0 <= j < tiles.len() ==> (#[trigger] tiles[j]).0 != c,
    ensures
        spec_tiles_put(tiles, c, rg) == tiles.push((c, rg)),
    decreases tiles.len(),
{
    if tiles.len() == 0 {
        assert(spec_tiles_put(tiles, c, rg) =~= tiles.push((c, rg)));
    } else {
        let sub = tiles.subrange(1, tiles.len() as int);
        lemma_tiles_put_missing(sub, c, rg);
        assert(seq![tiles[0]] + sub.push((c, rg)) =~= tiles.push((c, rg)));
    }
}

/// Records a tile: a coordinate seen again replaces its earlier range.
fn replace_or_push(tiles: &mut Vec<(TileCoord3, ByteRange)>, coord: TileCoord3, range: ByteRange)
    requires
        forall|i: int, j: int|
            0 <= i < j < old(tiles)@.len() ==> (#[trigger] old(tiles)@[i]).0 != (#[trigger] old(
                tiles,
            )@[j]).0,
    ensures
        final(tiles)@ == spec_tiles_put(old(tiles)@, coord, range),
        final(tiles)@.len() >= 1,
        forall|i: int|
            0 <= i < final(tiles)@.len() ==> (((#[trigger] final(tiles)@[i]).0 == coord
                && final(tiles)@[i].1 == range) || (exists|j: int|
                0 <= j < old(tiles)@.len() && final(tiles)@[i] == #[trigger] old(tiles)@[j])),
        forall|i: int, j: int|
            0 <= i < j < final(tiles)@.len() ==> (#[trigger] final(tiles)@[i]).0 != (
            #[trigger] final(tiles)@[j]).0,
        exists|i: int| 0 <= i < final(tiles)@.len() && (#[trigger] final(tiles)@[i]).0 == coord,
{
    let n = tiles.len();
    let mut i: usize = 0;
    while i < n
        invariant
            i <= n,
            n == tiles@.len(),
            tiles@ == old(tiles)@,
            forall|a: int, b: int|
                0 <= a < b < tiles@.len() ==> (#[trigger] tiles@[a]).0 != (#[trigger] tiles@[b]).0,
            forall|k: int| 0 <= k < i ==> (#[trigger] tiles@[k]).0 != coord,
        decreases n - i,
    {
        let c = tiles[i].0;
        if c.x == coord.x && c.y == coord.y && c.z == coord.z {
            let _old_entry = tiles.remove(i);
            tiles.insert(i, (coord, range));
            proof {
                lemma_tiles_put_found(old(tiles)@, coord, range, i as int);
                assert(tiles@ =~= old(tiles)@.update(i as int, (coord, range)));
                assert forall|k: int|
                    0 <= k < tiles@.len() implies (((#[trigger] tiles@[k]).0 == coord && tiles@[k].1
                    == range) || (exists|j: int|
                    0 <= j < old(tiles)@.len() && tiles@[k] == #[trigger] old(tiles)@[j])) by {
                    if k != i as int {
                        assert(tiles@[k] == old(tiles)@[k]);
                    }
                }
                assert(old(tiles)@[i as int].0 == coord);
                assert(tiles@[i as int].0 == coord);
            }
            return ;
        }
        i = i + 1;
    }
    tiles.push((coord, range));
    proof {
        lemma_tiles_put_missing(old(tiles)@, coord, range);
        assert(tiles@ =~= old(tiles)@.push((coord, range)));
        assert forall|k: int|
            0 <= k < tiles@.len() implies (((#[trigger] tiles@[k]).0 == coord && tiles@[k].1
            == range) || (exists|j: int|
            0 <= j < old(tiles)@.len() && tiles@[k] == #[trigger] old(tiles)@[j])) by {
            if k < old(tiles)@.len() {
                assert(tiles@[k] == old(tiles)@[k]);
            }
        }
        assert(tiles@[tiles@.len() - 1].0 == coord);
    }
}

} // verus!
