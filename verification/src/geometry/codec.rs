//! The tile container's binary form: length-prefixed, little-endian,
//! UTF-8 strings. `encode` and `decode` below are proved to match the
//! specification functions here, and decoding is proved to invert
//! encoding.

use vstd::prelude::*;

use vstd::arithmetic::div_mod::lemma_div_denominator;
use vstd::arithmetic::div_mod::lemma_fundamental_div_mod;
use vstd::arithmetic::div_mod::lemma_small_mod;
use vstd::utf8::decode_utf8;
use vstd::utf8::encode_utf8;
use vstd::utf8::encode_utf8_decode_utf8;
use vstd::utf8::encode_utf8_valid_utf8;
use vstd::utf8::valid_utf8;

use crate::geometry::model::Feature;
use crate::geometry::model::FeatureV;
use crate::geometry::model::Geometry;
use crate::geometry::model::Layer;
use crate::geometry::model::LayerV;
use crate::geometry::model::VectorTile;
use crate::geometry::model::VectorTileV;
use crate::geometry::types::geo_entry_view;
use crate::geometry::types::GeoProperties;
use crate::geometry::types::GeoValue;
use crate::geometry::types::GeoValueV;
use crate::types::blob::Blob;

verus! {

/// The eight little-endian bytes of a number.
#[verifier::opaque]
pub open spec fn u64le(n: u64) -> Seq<u8> {
    seq![
        (n % 0x100) as u8,
        ((n / 0x100) % 0x100) as u8,
        ((n / 0x1_0000) % 0x100) as u8,
        ((n / 0x100_0000) % 0x100) as u8,
        ((n / 0x1_0000_0000) % 0x100) as u8,
        ((n / 0x100_0000_0000) % 0x100) as u8,
        ((n / 0x1_0000_0000_0000) % 0x100) as u8,
        ((n / 0x100_0000_0000_0000) % 0x100) as u8,
    ]
}

/// The number eight little-endian bytes hold.
#[verifier::opaque]
pub open spec fn u64_of_le(b: Seq<u8>) -> int {
    b[0] + 0x100 * (b[1] + 0x100 * (b[2] + 0x100 * (b[3] + 0x100 * (b[4] + 0x100 * (b[5] + 0x100 * (
    b[6] + 0x100 * b[7]))))))
}

pub proof fn lemma_u64le_roundtrip(n: u64)
    ensures
        u64_of_le(u64le(n)) == n,
        u64le(n).len() == 8,
{
    reveal(u64le);
    reveal(u64_of_le);
    let n0 = n as int;
    let q1 = n0 / 0x100;
    let q2 = n0 / 0x1_0000;
    let q3 = n0 / 0x100_0000;
    let q4 = n0 / 0x1_0000_0000;
    let q5 = n0 / 0x100_0000_0000;
    let q6 = n0 / 0x1_0000_0000_0000;
    let q7 = n0 / 0x100_0000_0000_0000;
    lemma_fundamental_div_mod(n0, 0x100);
    lemma_fundamental_div_mod(q1, 0x100);
    lemma_fundamental_div_mod(q2, 0x100);
    lemma_fundamental_div_mod(q3, 0x100);
    lemma_fundamental_div_mod(q4, 0x100);
    lemma_fundamental_div_mod(q5, 0x100);
    lemma_fundamental_div_mod(q6, 0x100);
    lemma_div_denominator(n0, 0x100, 0x100);
    lemma_div_denominator(n0, 0x1_0000, 0x100);
    lemma_div_denominator(n0, 0x100_0000, 0x100);
    lemma_div_denominator(n0, 0x1_0000_0000, 0x100);
    lemma_div_denominator(n0, 0x100_0000_0000, 0x100);
    lemma_div_denominator(n0, 0x1_0000_0000_0000, 0x100);
    assert(q7 < 0x100) by {
        assert(n0 < 0x100_0000_0000_0000 * 0x100) by (nonlinear_arith)
            requires
                n0 < 0x1_0000_0000_0000_0000,
        ;
        vstd::arithmetic::div_mod::lemma_multiply_divide_lt(n0, 0x100_0000_0000_0000, 0x100);
    }
    lemma_small_mod(q7 as nat, 0x100);
}

pub proof fn lemma_u64le_len(n: u64)
    ensures
        u64le(n).len() == 8,
{
    reveal(u64le);
}

proof fn proof_u64le_lens_for_value(v: GeoValueV)
    ensures
        match v {
            GeoValueV::Int(i) => u64le(i as u64).len() == 8 && u64le(
                (-(i as int)) as u64,
            ).len() == 8,
            GeoValueV::UInt(u) => u64le(u).len() == 8,
            GeoValueV::Text(x) => u64le(encode_utf8(x).len() as u64).len() == 8,
            _ => true,
        },
{
    reveal(u64le);
}

/// The encoding of a string: its UTF-8 byte length, then its UTF-8 bytes.
pub open spec fn str_enc(s: Seq<char>) -> Seq<u8> {
    u64le(encode_utf8(s).len() as u64) + encode_utf8(s)
}

/// The encoding of a property value: a tag byte, then the payload.
pub open spec fn value_enc(v: GeoValueV) -> Seq<u8> {
    match v {
        GeoValueV::Null => seq![0u8],
        GeoValueV::Bool(b) => if b {
            seq![2u8]
        } else {
            seq![1u8]
        },
        GeoValueV::Int(i) => if i >= 0 {
            seq![3u8, 0u8] + u64le(i as u64)
        } else {
            seq![3u8, 1u8] + u64le((-(i as int)) as u64)
        },
        GeoValueV::UInt(u) => seq![4u8] + u64le(u),
        GeoValueV::Text(s) => seq![5u8] + str_enc(s),
    }
}

pub open spec fn entry_enc(e: (Seq<char>, GeoValueV)) -> Seq<u8> {
    str_enc(e.0) + value_enc(e.1)
}

pub open spec fn entries_enc(es: Seq<(Seq<char>, GeoValueV)>) -> Seq<u8>
    decreases es.len(),
{
    if es.len() == 0 {
        Seq::empty()
    } else {
        entry_enc(es[0]) + entries_enc(es.subrange(1, es.len() as int))
    }
}

/// The encoding of a property map: its entry count, then its entries.
pub open spec fn props_enc(es: Seq<(Seq<char>, GeoValueV)>) -> Seq<u8> {
    u64le(es.len() as u64) + entries_enc(es)
}

/// The encoding of a feature: optional id, geometry block, optional
/// properties.
pub open spec fn feature_enc(f: FeatureV) -> Seq<u8> {
    (match f.id {
        None => seq![0u8],
        Some(x) => seq![1u8] + u64le(x),
    }) + u64le(f.geometry.len() as u64) + f.geometry + (match f.properties {
        None => seq![0u8],
        Some(es) => seq![1u8] + props_enc(es),
    })
}

pub open spec fn features_enc(fs: Seq<FeatureV>) -> Seq<u8>
    decreases fs.len(),
{
    if fs.len() == 0 {
        Seq::empty()
    } else {
        feature_enc(fs[0]) + features_enc(fs.subrange(1, fs.len() as int))
    }
}

/// The encoding of a layer: name, extent, version, feature count,
/// features.
pub open spec fn layer_enc(l: LayerV) -> Seq<u8> {
    str_enc(l.name) + u64le(l.extent as u64) + u64le(l.version as u64) + u64le(
        l.features.len() as u64,
    ) + features_enc(l.features)
}

pub open spec fn layers_enc(ls: Seq<LayerV>) -> Seq<u8>
    decreases ls.len(),
{
    if ls.len() == 0 {
        Seq::empty()
    } else {
        layer_enc(ls[0]) + layers_enc(ls.subrange(1, ls.len() as int))
    }
}

/// The encoding of a whole tile: its layer count, then its layers.
pub open spec fn tile_enc(t: VectorTileV) -> Seq<u8> {
    u64le(t.layers.len() as u64) + layers_enc(t.layers)
}

/// Reads a number.
pub open spec fn d_u64(s: Seq<u8>, pos: int) -> Option<(int, u64)> {
    if 0 <= pos && pos + 8 <= s.len() {
        Some((pos + 8, u64_of_le(s.subrange(pos, pos + 8)) as u64))
    } else {
        None
    }
}

/// Reads a block of bytes of a known length.
pub open spec fn d_bytes(s: Seq<u8>, pos: int, n: int) -> Option<(int, Seq<u8>)> {
    if 0 <= pos && 0 <= n && pos + n <= s.len() {
        Some((pos + n, s.subrange(pos, pos + n)))
    } else {
        None
    }
}

/// Reads a string: its byte length, then that many UTF-8 bytes.
pub open spec fn d_str(s: Seq<u8>, pos: int) -> Option<(int, Seq<char>)> {
    match d_u64(s, pos) {
        Some((p1, n)) => match d_bytes(s, p1, n as int) {
            Some((p2, block)) => if valid_utf8(block) {
                Some((p2, decode_utf8(block)))
            } else {
                None
            },
            None => None,
        },
        None => None,
    }
}

/// Reads a property value: a tag byte, then the payload.
pub open spec fn d_value(s: Seq<u8>, pos: int) -> Option<(int, GeoValueV)> {
    if !(0 <= pos < s.len()) {
        None
    } else {
        let tag = s[pos];
        if tag == 0 {
            Some((pos + 1, GeoValueV::Null))
        } else if tag == 1 {
            Some((pos + 1, GeoValueV::Bool(false)))
        } else if tag == 2 {
            Some((pos + 1, GeoValueV::Bool(true)))
        } else if tag == 3 {
            if pos + 1 < s.len() {
                let sign = s[pos + 1];
                match d_u64(s, pos + 2) {
                    Some((p, mag)) => if sign == 0 {
                        if mag <= 0x7fff_ffff_ffff_ffff {
                            Some((p, GeoValueV::Int(mag as i64)))
                        } else {
                            None
                        }
                    } else if sign == 1 {
                        if 1 <= mag <= 0x8000_0000_0000_0000 {
                            Some((p, GeoValueV::Int((-(mag as int)) as i64)))
                        } else {
                            None
                        }
                    } else {
                        None
                    },
                    None => None,
                }
            } else {
                None
            }
        } else if tag == 4 {
            match d_u64(s, pos + 1) {
                Some((p, u)) => Some((p, GeoValueV::UInt(u))),
                None => None,
            }
        } else if tag == 5 {
            match d_str(s, pos + 1) {
                Some((p, x)) => Some((p, GeoValueV::Text(x))),
                None => None,
            }
        } else {
            None
        }
    }
}

/// Reads one property entry: a key, then a value.
pub open spec fn d_entry(s: Seq<u8>, pos: int) -> Option<(int, (Seq<char>, GeoValueV))> {
    match d_str(s, pos) {
        Some((p1, k)) => match d_value(s, p1) {
            Some((p2, v)) => Some((p2, (k, v))),
            None => None,
        },
        None => None,
    }
}

/// Reads a known number of property entries.
pub open spec fn d_entries(s: Seq<u8>, pos: int, n: int) -> Option<(
    int,
    Seq<(Seq<char>, GeoValueV)>,
)>
    decreases n,
{
    if n <= 0 {
        Some((pos, Seq::empty()))
    } else {
        match d_entry(s, pos) {
            Some((p1, e)) => match d_entries(s, p1, n - 1) {
                Some((p2, es)) => Some((p2, seq![e] + es)),
                None => None,
            },
            None => None,
        }
    }
}

/// Reads a property map: its entry count, then its entries.
pub open spec fn d_props(s: Seq<u8>, pos: int) -> Option<(int, Seq<(Seq<char>, GeoValueV)>)> {
    match d_u64(s, pos) {
        Some((p1, n)) => d_entries(s, p1, n as int),
        None => None,
    }
}

/// Reads one feature.
pub open spec fn d_feature(s: Seq<u8>, pos: int) -> Option<(int, FeatureV)> {
    if !(0 <= pos < s.len()) {
        None
    } else {
        let idtag = s[pos];
        let id_part: Option<(int, Option<u64>)> = if idtag == 0 {
            Some((pos + 1, None))
        } else if idtag == 1 {
            match d_u64(s, pos + 1) {
                Some((p, x)) => Some((p, Some(x))),
                None => None,
            }
        } else {
            None
        };
        match id_part {
            Some((p1, id)) => match d_u64(s, p1) {
                Some((p2, glen)) => match d_bytes(s, p2, glen as int) {
                    Some((p3, geo)) => if 0 <= p3 < s.len() {
                        let ptag = s[p3];
                        if ptag == 0 {
                            Some((p3 + 1, FeatureV { id, geometry: geo, properties: None }))
                        } else if ptag == 1 {
                            match d_props(s, p3 + 1) {
                                Some((p4, es)) => Some(
                                    (p4, FeatureV { id, geometry: geo, properties: Some(es) }),
                                ),
                                None => None,
                            }
                        } else {
                            None
                        }
                    } else {
                        None
                    },
                    None => None,
                },
                None => None,
            },
            None => None,
        }
    }
}

/// Reads a known number of features.
pub open spec fn d_features(s: Seq<u8>, pos: int, n: int) -> Option<(int, Seq<FeatureV>)>
    decreases n,
{
    if n <= 0 {
        Some((pos, Seq::empty()))
    } else {
        match d_feature(s, pos) {
            Some((p1, f)) => match d_features(s, p1, n - 1) {
                Some((p2, fs)) => Some((p2, seq![f] + fs)),
                None => None,
            },
            None => None,
        }
    }
}

/// Reads one layer.
pub open spec fn d_layer(s: Seq<u8>, pos: int) -> Option<(int, LayerV)> {
    match d_str(s, pos) {
        Some((p1, name)) => match d_u64(s, p1) {
            Some((p2, ext)) => match d_u64(s, p2) {
                Some((p3, ver)) => if ext <= 0xffff_ffff && ver <= 0xffff_ffff {
                    match d_u64(s, p3) {
                        Some((p4, cnt)) => match d_features(s, p4, cnt as int) {
                            Some((p5, fs)) => Some(
                                (
                                    p5,
                                    LayerV {
                                        name,
                                        extent: ext as u32,
                                        version: ver as u32,
                                        features: fs,
                                    },
                                ),
                            ),
                            None => None,
                        },
                        None => None,
                    }
                } else {
                    None
                },
                None => None,
            },
            None => None,
        },
        None => None,
    }
}

/// Reads a known number of layers.
pub open spec fn d_layers(s: Seq<u8>, pos: int, n: int) -> Option<(int, Seq<LayerV>)>
    decreases n,
{
    if n <= 0 {
        Some((pos, Seq::empty()))
    } else {
        match d_layer(s, pos) {
            Some((p1, l)) => match d_layers(s, p1, n - 1) {
                Some((p2, ls)) => Some((p2, seq![l] + ls)),
                None => None,
            },
            None => None,
        }
    }
}

/// What a byte payload decodes to: a tile whose encoding is exactly the
/// payload, or nothing.
pub open spec fn d_tile(s: Seq<u8>) -> Option<VectorTileV> {
    match d_u64(s, 0) {
        Some((p1, n)) => match d_layers(s, p1, n as int) {
            Some((p2, ls)) => if p2 == s.len() {
                Some(VectorTileV { layers: ls })
            } else {
                None
            },
            None => None,
        },
        None => None,
    }
}

/// The string's byte length fits the length prefix.
pub open spec fn str_wf(x: Seq<char>) -> bool {
    encode_utf8(x).len() < 0x1_0000_0000_0000_0000
}

pub open spec fn value_wf(v: GeoValueV) -> bool {
    match v {
        GeoValueV::Text(s) => str_wf(s),
        _ => true,
    }
}

pub open spec fn entries_wf(es: Seq<(Seq<char>, GeoValueV)>) -> bool {
    &&& es.len() < 0x1_0000_0000_0000_0000
    &&& forall|i: int|
        0 <= i < es.len() ==> str_wf((#[trigger] es[i]).0) && value_wf(es[i].1)
}

pub open spec fn feature_wf(f: FeatureV) -> bool {
    &&& f.geometry.len() < 0x1_0000_0000_0000_0000
    &&& match f.properties {
        Some(es) => entries_wf(es),
        None => true,
    }
}

pub open spec fn layer_wf(l: LayerV) -> bool {
    &&& str_wf(l.name)
    &&& l.features.len() < 0x1_0000_0000_0000_0000
    &&& forall|i: int| 0 <= i < l.features.len() ==> feature_wf(#[trigger] l.features[i])
}

/// Every length and count of the tile fits its prefix; true of every tile
/// held in memory.
pub open spec fn tile_wf(t: VectorTileV) -> bool {
    &&& t.layers.len() < 0x1_0000_0000_0000_0000
    &&& forall|i: int| 0 <= i < t.layers.len() ==> layer_wf(#[trigger] t.layers[i])
}

/// A slice of an already-matched slice.
proof fn lemma_slice_of_slice(s: Seq<u8>, pos: int, e: Seq<u8>, a: int, b: int)
    requires
        0 <= pos,
        pos + e.len() <= s.len(),
        s.subrange(pos, pos + e.len() as int) == e,
        0 <= a <= b <= e.len(),
    ensures
        s.subrange(pos + a, pos + b) == e.subrange(a, b),
{
    assert forall|k: int| 0 <= k < b - a implies s.subrange(pos + a, pos + b)[k] == e.subrange(
        a,
        b,
    )[k] by {
        assert(s.subrange(pos, pos + e.len() as int)[a + k] == e[a + k]);
    }
    assert(s.subrange(pos + a, pos + b) =~= e.subrange(a, b));
}

proof fn lemma_d_u64_enc(s: Seq<u8>, pos: int, n: u64)
    requires
        0 <= pos,
        pos + 8 <= s.len(),
        s.subrange(pos, pos + 8) == u64le(n),
    ensures
        d_u64(s, pos) == Some((pos + 8, n)),
{
    lemma_u64le_roundtrip(n);
}

proof fn lemma_d_str_enc(s: Seq<u8>, pos: int, x: Seq<char>)
    requires
        0 <= pos,
        str_wf(x),
        pos + str_enc(x).len() <= s.len(),
        s.subrange(pos, pos + str_enc(x).len() as int) == str_enc(x),
    ensures
        d_str(s, pos) == Some((pos + str_enc(x).len(), x)),
{
    let e = str_enc(x);
    let bytes = encode_utf8(x);
    let n = bytes.len() as u64;
    lemma_u64le_len(n);
    assert(e.subrange(0, 8) =~= u64le(n));
    lemma_slice_of_slice(s, pos, e, 0, 8);
    lemma_d_u64_enc(s, pos, n);
    assert(e.subrange(8, e.len() as int) =~= bytes);
    lemma_slice_of_slice(s, pos, e, 8, e.len() as int);
    encode_utf8_valid_utf8(x);
    encode_utf8_decode_utf8(x);
}

proof fn lemma_d_value_enc(s: Seq<u8>, pos: int, v: GeoValueV)
    requires
        0 <= pos,
        value_wf(v),
        pos + value_enc(v).len() <= s.len(),
        s.subrange(pos, pos + value_enc(v).len() as int) == value_enc(v),
    ensures
        d_value(s, pos) == Some((pos + value_enc(v).len(), v)),
{
    let e = value_enc(v);
    proof_u64le_lens_for_value(v);
    assert(s.subrange(pos, pos + e.len() as int)[0] == e[0]);
    match v {
        GeoValueV::Null => {},
        GeoValueV::Bool(b) => {},
        GeoValueV::Int(i) => {
            assert(s.subrange(pos, pos + e.len() as int)[1] == e[1]);
            if i >= 0 {
                let mag = i as u64;
                assert(e.subrange(2, 10) =~= u64le(mag));
                lemma_slice_of_slice(s, pos, e, 2, 10);
                lemma_d_u64_enc(s, pos + 2, mag);
            } else {
                let mag = (-(i as int)) as u64;
                assert(e.subrange(2, 10) =~= u64le(mag));
                lemma_slice_of_slice(s, pos, e, 2, 10);
                lemma_d_u64_enc(s, pos + 2, mag);
                assert(1 <= mag <= 0x8000_0000_0000_0000);
                assert((-(mag as int)) as i64 == i);
            }
        },
        GeoValueV::UInt(u) => {
            assert(e.subrange(1, 9) =~= u64le(u));
            lemma_slice_of_slice(s, pos, e, 1, 9);
            lemma_d_u64_enc(s, pos + 1, u);
        },
        GeoValueV::Text(x) => {
            assert(e.subrange(1, e.len() as int) =~= str_enc(x));
            lemma_slice_of_slice(s, pos, e, 1, e.len() as int);
            lemma_d_str_enc(s, pos + 1, x);
        },
    }
}

proof fn lemma_d_entries_enc(s: Seq<u8>, pos: int, es: Seq<(Seq<char>, GeoValueV)>)
    requires
        0 <= pos,
        entries_wf(es),
        pos + entries_enc(es).len() <= s.len(),
        s.subrange(pos, pos + entries_enc(es).len() as int) == entries_enc(es),
    ensures
        d_entries(s, pos, es.len() as int) == Some((pos + entries_enc(es).len(), es)),
    decreases es.len(),
{
    if es.len() == 0 {
        assert(es =~= Seq::<(Seq<char>, GeoValueV)>::empty());
    } else {
        let e = entries_enc(es);
        let e0 = es[0];
        let rest = es.subrange(1, es.len() as int);
        let head = entry_enc(e0);
        let klen = str_enc(e0.0).len() as int;
        assert(e.subrange(0, klen) =~= str_enc(e0.0));
        lemma_slice_of_slice(s, pos, e, 0, klen);
        lemma_d_str_enc(s, pos, e0.0);
        assert(e.subrange(klen, head.len() as int) =~= value_enc(e0.1));
        lemma_slice_of_slice(s, pos, e, klen, head.len() as int);
        lemma_d_value_enc(s, pos + klen, e0.1);
        assert(e.subrange(head.len() as int, e.len() as int) =~= entries_enc(rest));
        lemma_slice_of_slice(s, pos, e, head.len() as int, e.len() as int);
        lemma_d_entries_enc(s, pos + head.len() as int, rest);
        assert(seq![e0] + rest =~= es);
    }
}

proof fn lemma_d_props_enc(s: Seq<u8>, pos: int, es: Seq<(Seq<char>, GeoValueV)>)
    requires
        0 <= pos,
        entries_wf(es),
        pos + props_enc(es).len() <= s.len(),
        s.subrange(pos, pos + props_enc(es).len() as int) == props_enc(es),
    ensures
        d_props(s, pos) == Some((pos + props_enc(es).len(), es)),
{
    let e = props_enc(es);
    let n = es.len() as u64;
    lemma_u64le_len(n);
    assert(e.subrange(0, 8) =~= u64le(n));
    lemma_slice_of_slice(s, pos, e, 0, 8);
    lemma_d_u64_enc(s, pos, n);
    assert(e.subrange(8, e.len() as int) =~= entries_enc(es));
    lemma_slice_of_slice(s, pos, e, 8, e.len() as int);
    lemma_d_entries_enc(s, pos + 8, es);
}

/// Splits a matched concatenation of four blocks into its blocks.
proof fn lemma_slice4(s: Seq<u8>, pos: int, a: Seq<u8>, b: Seq<u8>, c: Seq<u8>, d: Seq<u8>)
    requires
        0 <= pos,
        pos + (a + b + c + d).len() <= s.len(),
        s.subrange(pos, pos + (a + b + c + d).len() as int) == a + b + c + d,
    ensures
        s.subrange(pos, pos + a.len() as int) == a,
        s.subrange(pos + a.len(), pos + a.len() + b.len()) == b,
        s.subrange(pos + a.len() + b.len(), pos + a.len() + b.len() + c.len()) == c,
        s.subrange(
            pos + a.len() + b.len() + c.len(),
            pos + a.len() + b.len() + c.len() + d.len(),
        ) == d,
{
    let e = a + b + c + d;
    let al = a.len() as int;
    let bl = b.len() as int;
    let cl = c.len() as int;
    let dl = d.len() as int;
    assert(e.subrange(0, al) =~= a);
    lemma_slice_of_slice(s, pos, e, 0, al);
    assert(e.subrange(al, al + bl) =~= b);
    lemma_slice_of_slice(s, pos, e, al, al + bl);
    assert(e.subrange(al + bl, al + bl + cl) =~= c);
    lemma_slice_of_slice(s, pos, e, al + bl, al + bl + cl);
    assert(e.subrange(al + bl + cl, al + bl + cl + dl) =~= d);
    lemma_slice_of_slice(s, pos, e, al + bl + cl, al + bl + cl + dl);
}

#[verifier::rlimit(100)]
proof fn lemma_d_feature_enc(s: Seq<u8>, pos: int, f: FeatureV)
    requires
        0 <= pos,
        feature_wf(f),
        pos + feature_enc(f).len() <= s.len(),
        s.subrange(pos, pos + feature_enc(f).len() as int) == feature_enc(f),
    ensures
        d_feature(s, pos) == Some((pos + feature_enc(f).len(), f)),
{
    let a = match f.id {
        None => seq![0u8],
        Some(x) => {
            lemma_u64le_len(x);
            seq![1u8] + u64le(x)
        },
    };
    let glen = f.geometry.len() as u64;
    lemma_u64le_len(glen);
    let b = u64le(glen);
    let c = f.geometry;
    let d = match f.properties {
        None => seq![0u8],
        Some(es) => seq![1u8] + props_enc(es),
    };
    lemma_slice4(s, pos, a, b, c, d);
    let al = a.len() as int;
    assert(s.subrange(pos, pos + al)[0] == a[0]);
    match f.id {
        None => {},
        Some(x) => {
            assert(s.subrange(pos, pos + al).subrange(1, 9) =~= u64le(x));
            assert(s.subrange(pos, pos + al).subrange(1, 9) =~= s.subrange(pos + 1, pos + 9));
            lemma_d_u64_enc(s, pos + 1, x);
        },
    }
    lemma_d_u64_enc(s, pos + al, glen);
    let p3 = pos + al + 8 + c.len() as int;
    assert(s.subrange(p3, p3 + d.len() as int)[0] == d[0]);
    match f.properties {
        None => {},
        Some(es) => {
            assert(s.subrange(p3, p3 + d.len() as int).subrange(1, d.len() as int) =~= props_enc(
                es,
            ));
            assert(s.subrange(p3, p3 + d.len() as int).subrange(1, d.len() as int) =~= s.subrange(
                p3 + 1,
                p3 + d.len() as int,
            ));
            lemma_d_props_enc(s, p3 + 1, es);
        },
    }
}

proof fn lemma_d_features_enc(s: Seq<u8>, pos: int, fs: Seq<FeatureV>)
    requires
        0 <= pos,
        fs.len() < 0x1_0000_0000_0000_0000,
        forall|i: int| 0 <= i < fs.len() ==> feature_wf(#[trigger] fs[i]),
        pos + features_enc(fs).len() <= s.len(),
        s.subrange(pos, pos + features_enc(fs).len() as int) == features_enc(fs),
    ensures
        d_features(s, pos, fs.len() as int) == Some((pos + features_enc(fs).len(), fs)),
    decreases fs.len(),
{
    if fs.len() == 0 {
        assert(fs =~= Seq::<FeatureV>::empty());
    } else {
        let e = features_enc(fs);
        let f0 = fs[0];
        let rest = fs.subrange(1, fs.len() as int);
        let head = feature_enc(f0);
        assert(e.subrange(0, head.len() as int) =~= head);
        lemma_slice_of_slice(s, pos, e, 0, head.len() as int);
        lemma_d_feature_enc(s, pos, f0);
        assert(e.subrange(head.len() as int, e.len() as int) =~= features_enc(rest));
        lemma_slice_of_slice(s, pos, e, head.len() as int, e.len() as int);
        lemma_d_features_enc(s, pos + head.len() as int, rest);
        assert(seq![f0] + rest =~= fs);
    }
}

#[verifier::rlimit(100)]
proof fn lemma_d_layer_enc(s: Seq<u8>, pos: int, l: LayerV)
    requires
        0 <= pos,
        layer_wf(l),
        pos + layer_enc(l).len() <= s.len(),
        s.subrange(pos, pos + layer_enc(l).len() as int) == layer_enc(l),
    ensures
        d_layer(s, pos) == Some((pos + layer_enc(l).len(), l)),
{
    let e = layer_enc(l);
    lemma_u64le_len(l.extent as u64);
    lemma_u64le_len(l.version as u64);
    lemma_u64le_len(l.features.len() as u64);
    lemma_u64le_len(encode_utf8(l.name).len() as u64);
    let nlen = str_enc(l.name).len() as int;
    assert(e.subrange(0, nlen) =~= str_enc(l.name));
    lemma_slice_of_slice(s, pos, e, 0, nlen);
    lemma_d_str_enc(s, pos, l.name);
    assert(e.subrange(nlen, nlen + 8) =~= u64le(l.extent as u64));
    lemma_slice_of_slice(s, pos, e, nlen, nlen + 8);
    lemma_d_u64_enc(s, pos + nlen, l.extent as u64);
    assert(e.subrange(nlen + 8, nlen + 16) =~= u64le(l.version as u64));
    lemma_slice_of_slice(s, pos, e, nlen + 8, nlen + 16);
    lemma_d_u64_enc(s, pos + nlen + 8, l.version as u64);
    assert(e.subrange(nlen + 16, nlen + 24) =~= u64le(l.features.len() as u64));
    lemma_slice_of_slice(s, pos, e, nlen + 16, nlen + 24);
    lemma_d_u64_enc(s, pos + nlen + 16, l.features.len() as u64);
    assert(e.subrange(nlen + 24, e.len() as int) =~= features_enc(l.features));
    lemma_slice_of_slice(s, pos, e, nlen + 24, e.len() as int);
    lemma_d_features_enc(s, pos + nlen + 24, l.features);
}

proof fn lemma_d_layers_enc(s: Seq<u8>, pos: int, ls: Seq<LayerV>)
    requires
        0 <= pos,
        ls.len() < 0x1_0000_0000_0000_0000,
        forall|i: int| 0 <= i < ls.len() ==> layer_wf(#[trigger] ls[i]),
        pos + layers_enc(ls).len() <= s.len(),
        s.subrange(pos, pos + layers_enc(ls).len() as int) == layers_enc(ls),
    ensures
        d_layers(s, pos, ls.len() as int) == Some((pos + layers_enc(ls).len(), ls)),
    decreases ls.len(),
{
    if ls.len() == 0 {
        assert(ls =~= Seq::<LayerV>::empty());
    } else {
        let e = layers_enc(ls);
        let l0 = ls[0];
        let rest = ls.subrange(1, ls.len() as int);
        let head = layer_enc(l0);
        assert(e.subrange(0, head.len() as int) =~= head);
        lemma_slice_of_slice(s, pos, e, 0, head.len() as int);
        lemma_d_layer_enc(s, pos, l0);
        assert(e.subrange(head.len() as int, e.len() as int) =~= layers_enc(rest));
        lemma_slice_of_slice(s, pos, e, head.len() as int, e.len() as int);
        lemma_d_layers_enc(s, pos + head.len() as int, rest);
        assert(seq![l0] + rest =~= ls);
    }
}

/// Decoding inverts encoding: a well-formed tile's encoding decodes to the
/// tile itself.
pub proof fn lemma_tile_roundtrip(t: VectorTileV)
    requires
        tile_wf(t),
    ensures
        d_tile(tile_enc(t)) == Some(t),
{
    let s = tile_enc(t);
    let n = t.layers.len() as u64;
    lemma_u64le_len(n);
    assert(s.subrange(0, 8) =~= u64le(n));
    lemma_d_u64_enc(s, 0, n);
    assert(s.subrange(0, s.len() as int) =~= s);
    lemma_slice_of_slice(s, 0, s, 8, s.len() as int);
    assert(s.subrange(8, s.len() as int) =~= layers_enc(t.layers));
    lemma_d_layers_enc(s, 8, t.layers);
}

} // verus!

verus! {

proof fn lemma_entries_enc_push(es: Seq<(Seq<char>, GeoValueV)>, e: (Seq<char>, GeoValueV))
    ensures
        entries_enc(es.push(e)) == entries_enc(es) + entry_enc(e),
    decreases es.len(),
{
    if es.len() == 0 {
        let pu = es.push(e);
        assert(pu.subrange(1, 1) =~= Seq::<(Seq<char>, GeoValueV)>::empty());
        assert(entries_enc(pu.subrange(1, 1)) =~= Seq::<u8>::empty());
        assert(pu[0] == e);
        assert(entries_enc(pu) =~= entries_enc(es) + entry_enc(e));
    } else {
        assert(es.push(e).subrange(1, es.len() as int + 1) =~= es.subrange(1, es.len() as int).push(e));
        lemma_entries_enc_push(es.subrange(1, es.len() as int), e);
        assert(entries_enc(es.push(e)) =~= entries_enc(es) + entry_enc(e));
    }
}

proof fn lemma_features_enc_push(fs: Seq<FeatureV>, f: FeatureV)
    ensures
        features_enc(fs.push(f)) == features_enc(fs) + feature_enc(f),
    decreases fs.len(),
{
    if fs.len() == 0 {
        let pu = fs.push(f);
        assert(pu.subrange(1, 1) =~= Seq::<FeatureV>::empty());
        assert(features_enc(pu.subrange(1, 1)) =~= Seq::<u8>::empty());
        assert(pu[0] == f);
        assert(features_enc(pu) =~= features_enc(fs) + feature_enc(f));
    } else {
        assert(fs.push(f).subrange(1, fs.len() as int + 1) =~= fs.subrange(1, fs.len() as int).push(f));
        lemma_features_enc_push(fs.subrange(1, fs.len() as int), f);
        assert(features_enc(fs.push(f)) =~= features_enc(fs) + feature_enc(f));
    }
}

proof fn lemma_layers_enc_push(ls: Seq<LayerV>, l: LayerV)
    ensures
        layers_enc(ls.push(l)) == layers_enc(ls) + layer_enc(l),
    decreases ls.len(),
{
    if ls.len() == 0 {
        let pu = ls.push(l);
        assert(pu.subrange(1, 1) =~= Seq::<LayerV>::empty());
        assert(layers_enc(pu.subrange(1, 1)) =~= Seq::<u8>::empty());
        assert(pu[0] == l);
        assert(layers_enc(pu) =~= layers_enc(ls) + layer_enc(l));
    } else {
        assert(ls.push(l).subrange(1, ls.len() as int + 1) =~= ls.subrange(1, ls.len() as int).push(l));
        lemma_layers_enc_push(ls.subrange(1, ls.len() as int), l);
        assert(layers_enc(ls.push(l)) =~= layers_enc(ls) + layer_enc(l));
    }
}

fn push_u64(out: &mut Vec<u8>, n: u64)
    ensures
        final(out)@ == old(out)@ + u64le(n),
{
    out.push((n % 0x100) as u8);
    out.push(((n / 0x100) % 0x100) as u8);
    out.push(((n / 0x1_0000) % 0x100) as u8);
    out.push(((n / 0x100_0000) % 0x100) as u8);
    out.push(((n / 0x1_0000_0000) % 0x100) as u8);
    out.push(((n / 0x100_0000_0000) % 0x100) as u8);
    out.push(((n / 0x1_0000_0000_0000) % 0x100) as u8);
    out.push(((n / 0x100_0000_0000_0000) % 0x100) as u8);
    proof {
        reveal(u64le);
        assert(out@ =~= old(out)@ + u64le(n));
    }
}

fn push_str(out: &mut Vec<u8>, s: &str)
    ensures
        final(out)@ == old(out)@ + str_enc(s@),
{
    let bytes = s.as_bytes();
    push_u64(out, bytes.len() as u64);
    let ghost mid = out@;
    let mut i: usize = 0;
    while i < bytes.len()
        invariant
            i <= bytes@.len(),
            bytes@ == encode_utf8(s@),
            out@ == mid + bytes@.subrange(0, i as int),
        decreases bytes@.len() - i,
    {
        proof {
            assert(bytes@.subrange(0, i + 1) =~= bytes@.subrange(0, i as int).push(
                bytes@[i as int],
            ));
            assert(mid + bytes@.subrange(0, i as int).push(bytes@[i as int]) =~= (mid
                + bytes@.subrange(0, i as int)).push(bytes@[i as int]));
        }
        out.push(bytes[i]);
        i = i + 1;
    }
    proof {
        assert(bytes@.subrange(0, bytes@.len() as int) =~= bytes@);
        assert(mid + bytes@ =~= old(out)@ + str_enc(s@));
    }
}

fn push_value(out: &mut Vec<u8>, v: &GeoValue)
    ensures
        final(out)@ == old(out)@ + value_enc(v.deep()),
{
    match v {
        GeoValue::Null => {
            out.push(0u8);
            proof {
                assert(out@ =~= old(out)@ + value_enc(v.deep()));
            }
        },
        GeoValue::Bool(b) => {
            if *b {
                out.push(2u8);
            } else {
                out.push(1u8);
            }
            proof {
                assert(out@ =~= old(out)@ + value_enc(v.deep()));
            }
        },
        GeoValue::Int(i) => {
            out.push(3u8);
            if *i >= 0 {
                out.push(0u8);
                let ghost mid = out@;
                push_u64(out, *i as u64);
                proof {
                    assert(mid =~= old(out)@ + seq![3u8, 0u8]);
                    assert(out@ =~= old(out)@ + value_enc(v.deep()));
                }
            } else {
                out.push(1u8);
                let ghost mid = out@;
                let wide: i128 = *i as i128;
                let mag: u64 = (-wide) as u64;
                push_u64(out, mag);
                proof {
                    assert(mid =~= old(out)@ + seq![3u8, 1u8]);
                    assert(mag == (-(*i as int)) as u64);
                    assert(out@ =~= old(out)@ + value_enc(v.deep()));
                }
            }
        },
        GeoValue::UInt(u) => {
            out.push(4u8);
            let ghost mid = out@;
            push_u64(out, *u);
            proof {
                assert(mid =~= old(out)@ + seq![4u8]);
                assert(out@ =~= old(out)@ + value_enc(v.deep()));
            }
        },
        GeoValue::Text(s) => {
            out.push(5u8);
            let ghost mid = out@;
            push_str(out, s.as_str());
            proof {
                assert(mid =~= old(out)@ + seq![5u8]);
                assert(out@ =~= old(out)@ + value_enc(v.deep()));
            }
        },
    }
}

fn push_props(out: &mut Vec<u8>, p: &GeoProperties)
    ensures
        final(out)@ == old(out)@ + props_enc(p@),
{
    let entries = p.as_entries();
    push_u64(out, entries.len() as u64);
    let ghost mid = out@;
    let mut i: usize = 0;
    proof {
        assert(p@.subrange(0, 0) =~= Seq::<(Seq<char>, GeoValueV)>::empty());
        assert(mid + entries_enc(p@.subrange(0, 0)) =~= mid);
    }
    while i < entries.len()
        invariant
            i <= entries@.len(),
            entries@.len() == p@.len(),
            forall|j: int|
                0 <= j < entries@.len() ==> geo_entry_view(#[trigger] entries@[j]) == p@[j],
            out@ == mid + entries_enc(p@.subrange(0, i as int)),
        decreases entries@.len() - i,
    {
        let ghost pre = p@.subrange(0, i as int);
        let e = &entries[i];
        let ghost mid2 = out@;
        push_str(out, e.0.as_str());
        push_value(out, &e.1);
        proof {
            lemma_entries_enc_push(pre, p@[i as int]);
            assert(p@.subrange(0, i + 1) =~= pre.push(p@[i as int]));
            assert(mid2 + (str_enc(e.0@) + value_enc(e.1.deep())) =~= (mid2 + str_enc(e.0@))
                + value_enc(e.1.deep()));
            assert(out@ =~= mid + entries_enc(p@.subrange(0, i + 1)));
        }
        i = i + 1;
    }
    proof {
        assert(p@.subrange(0, p@.len() as int) =~= p@);
        assert(mid + entries_enc(p@) =~= old(out)@ + props_enc(p@));
    }
}

fn push_feature(out: &mut Vec<u8>, f: &Feature)
    ensures
        final(out)@ == old(out)@ + feature_enc(f.deep()),
{
    let ghost start = out@;
    match &f.id {
        None => {
            out.push(0u8);
            proof {
                assert(out@ =~= start + seq![0u8]);
            }
        },
        Some(x) => {
            out.push(1u8);
            let ghost mid = out@;
            push_u64(out, *x);
            proof {
                assert(mid =~= start + seq![1u8]);
                assert(out@ =~= start + (seq![1u8] + u64le(*x)));
            }
        },
    }
    let ghost after_id = out@;
    push_u64(out, f.geometry.data.len() as u64);
    let ghost after_glen = out@;
    let mut i: usize = 0;
    while i < f.geometry.data.len()
        invariant
            i <= f.geometry.data@.len(),
            out@ == after_glen + f.geometry.data@.subrange(0, i as int),
        decreases f.geometry.data@.len() - i,
    {
        proof {
            assert(f.geometry.data@.subrange(0, i + 1) =~= f.geometry.data@.subrange(
                0,
                i as int,
            ).push(f.geometry.data@[i as int]));
            assert(after_glen + f.geometry.data@.subrange(0, i as int).push(
                f.geometry.data@[i as int],
            ) =~= (after_glen + f.geometry.data@.subrange(0, i as int)).push(
                f.geometry.data@[i as int],
            ));
        }
        out.push(f.geometry.data[i]);
        i = i + 1;
    }
    proof {
        assert(f.geometry.data@.subrange(0, f.geometry.data@.len() as int) =~= f.geometry.data@);
    }
    let ghost after_geo = out@;
    match &f.properties {
        None => {
            out.push(0u8);
            proof {
                assert(out@ =~= after_geo + seq![0u8]);
            }
        },
        Some(p) => {
            out.push(1u8);
            let ghost mid = out@;
            push_props(out, p);
            proof {
                assert(mid =~= after_geo + seq![1u8]);
                assert(out@ =~= after_geo + (seq![1u8] + props_enc(p@)));
            }
        },
    }
    proof {
        assert(out@ =~= start + feature_enc(f.deep()));
    }
}

fn push_layer(out: &mut Vec<u8>, l: &Layer)
    ensures
        final(out)@ == old(out)@ + layer_enc(l.deep()),
{
    let ghost start = out@;
    push_str(out, l.name.as_str());
    push_u64(out, l.extent as u64);
    push_u64(out, l.version as u64);
    push_u64(out, l.features.len() as u64);
    let ghost mid = out@;
    let ghost fdeep = l.deep().features;
    let mut i: usize = 0;
    proof {
        assert(fdeep.subrange(0, 0) =~= Seq::<FeatureV>::empty());
        assert(mid + features_enc(fdeep.subrange(0, 0)) =~= mid);
    }
    while i < l.features.len()
        invariant
            i <= l.features@.len(),
            fdeep == l.deep().features,
            fdeep.len() == l.features@.len(),
            forall|j: int| 0 <= j < fdeep.len() ==> fdeep[j] == (#[trigger] l.features@[j]).deep(),
            out@ == mid + features_enc(fdeep.subrange(0, i as int)),
        decreases l.features@.len() - i,
    {
        let ghost pre = fdeep.subrange(0, i as int);
        let ghost mid2 = out@;
        push_feature(out, &l.features[i]);
        proof {
            lemma_features_enc_push(pre, fdeep[i as int]);
            assert(fdeep.subrange(0, i + 1) =~= pre.push(fdeep[i as int]));
            assert(out@ =~= mid + features_enc(fdeep.subrange(0, i + 1)));
        }
        i = i + 1;
    }
    proof {
        assert(fdeep.subrange(0, fdeep.len() as int) =~= fdeep);
        assert(out@ =~= start + layer_enc(l.deep()));
    }
}

impl VectorTile {
    /// Encodes the tile to its binary form.
    pub fn to_blob(&self) -> (r: Blob)
        ensures
            r@ == tile_enc(self.deep()),
    {
        let mut out: Vec<u8> = Vec::new();
        push_u64(&mut out, self.layers.len() as u64);
        let ghost mid = out@;
        let ghost ldeep = self.deep().layers;
        let mut i: usize = 0;
        proof {
            assert(ldeep.subrange(0, 0) =~= Seq::<LayerV>::empty());
            assert(mid + layers_enc(ldeep.subrange(0, 0)) =~= mid);
        }
        while i < self.layers.len()
            invariant
                i <= self.layers@.len(),
                ldeep == self.deep().layers,
                ldeep.len() == self.layers@.len(),
                forall|j: int|
                    0 <= j < ldeep.len() ==> ldeep[j] == (#[trigger] self.layers@[j]).deep(),
                out@ == mid + layers_enc(ldeep.subrange(0, i as int)),
            decreases self.layers@.len() - i,
        {
            let ghost pre = ldeep.subrange(0, i as int);
            push_layer(&mut out, &self.layers[i]);
            proof {
                lemma_layers_enc_push(pre, ldeep[i as int]);
                assert(ldeep.subrange(0, i + 1) =~= pre.push(ldeep[i as int]));
                assert(out@ =~= mid + layers_enc(ldeep.subrange(0, i + 1)));
            }
            i = i + 1;
        }
        proof {
            assert(ldeep.subrange(0, ldeep.len() as int) =~= ldeep);
            assert(out@ =~= tile_enc(self.deep()));
        }
        Blob::from_vec(out)
    }
}

} // verus!

verus! {

/// The views of a list of decoded features.
pub open spec fn features_view(v: Seq<Feature>) -> Seq<FeatureV> {
    Seq::new(v.len(), |i: int| v[i].deep())
}

/// The views of a list of decoded layers.
pub open spec fn layers_view(v: Seq<Layer>) -> Seq<LayerV> {
    Seq::new(v.len(), |i: int| v[i].deep())
}

/// Relies on std's `String::from_utf8`: it succeeds exactly on valid UTF-8
/// and yields the characters those bytes encode.
#[verifier::external_body]
fn string_from_utf8(v: Vec<u8>) -> (r: Option<String>)
    ensures
        r matches Some(x) ==> valid_utf8(v@) && x@ == decode_utf8(v@),
        r is None ==> !valid_utf8(v@),
{
    String::from_utf8(v).ok()
}

fn read_u64(s: &[u8], pos: usize) -> (r: Option<(usize, u64)>)
    requires
        pos <= s@.len(),
    ensures
        r matches Some(ev) ==> d_u64(s@, pos as int) == Some((ev.0 as int, ev.1)) && pos < ev.0
            <= s@.len(),
        r is None ==> d_u64(s@, pos as int) is None,
{
    if s.len() - pos >= 8 {
        let b0 = s[pos] as u64;
        let b1 = s[pos + 1] as u64;
        let b2 = s[pos + 2] as u64;
        let b3 = s[pos + 3] as u64;
        let b4 = s[pos + 4] as u64;
        let b5 = s[pos + 5] as u64;
        let b6 = s[pos + 6] as u64;
        let b7 = s[pos + 7] as u64;
        let n = b0 + 0x100 * (b1 + 0x100 * (b2 + 0x100 * (b3 + 0x100 * (b4 + 0x100 * (b5 + 0x100
            * (b6 + 0x100 * b7))))));
        proof {
            reveal(u64_of_le);
            let sub = s@.subrange(pos as int, pos as int + 8);
            assert(sub[0] == s@[pos as int]);
            assert(sub[1] == s@[pos as int + 1]);
            assert(sub[2] == s@[pos as int + 2]);
            assert(sub[3] == s@[pos as int + 3]);
            assert(sub[4] == s@[pos as int + 4]);
            assert(sub[5] == s@[pos as int + 5]);
            assert(sub[6] == s@[pos as int + 6]);
            assert(sub[7] == s@[pos as int + 7]);
            assert(u64_of_le(sub) == n as int);
        }
        Some((pos + 8, n))
    } else {
        None
    }
}

fn read_block(s: &[u8], pos: usize, n: u64) -> (r: Option<(usize, Vec<u8>)>)
    requires
        pos <= s@.len(),
    ensures
        r matches Some(ev) ==> d_bytes(s@, pos as int, n as int) == Some((ev.0 as int, ev.1@))
            && pos <= ev.0 <= s@.len(),
        r is None ==> d_bytes(s@, pos as int, n as int) is None,
{
    if n <= (s.len() - pos) as u64 {
        let nb = n as usize;
        let mut out: Vec<u8> = Vec::new();
        let mut i: usize = 0;
        while i < nb
            invariant
                i <= nb,
                pos + nb <= s@.len(),
                pos + nb <= usize::MAX,
                out@ == s@.subrange(pos as int, pos as int + i as int),
            decreases nb - i,
        {
            proof {
                assert(s@.subrange(pos as int, pos as int + i as int + 1) =~= s@.subrange(
                    pos as int,
                    pos as int + i as int,
                ).push(s@[pos as int + i as int]));
            }
            out.push(s[pos + i]);
            i = i + 1;
        }
        Some((pos + nb, out))
    } else {
        None
    }
}

fn read_str(s: &[u8], pos: usize) -> (r: Option<(usize, String)>)
    requires
        pos <= s@.len(),
    ensures
        r matches Some(ev) ==> d_str(s@, pos as int) == Some((ev.0 as int, ev.1@)) && pos < ev.0
            <= s@.len(),
        r is None ==> d_str(s@, pos as int) is None,
{
    let (p1, n) = match read_u64(s, pos) {
        Some(v) => v,
        None => {
            return None;
        },
    };
    let (p2, block) = match read_block(s, p1, n) {
        Some(v) => v,
        None => {
            return None;
        },
    };
    match string_from_utf8(block) {
        Some(x) => Some((p2, x)),
        None => None,
    }
}

fn read_value(s: &[u8], pos: usize) -> (r: Option<(usize, GeoValue)>)
    requires
        pos <= s@.len(),
    ensures
        r matches Some(ev) ==> d_value(s@, pos as int) == Some((ev.0 as int, ev.1.deep())) && pos
            < ev.0 <= s@.len(),
        r is None ==> d_value(s@, pos as int) is None,
{
    if pos >= s.len() {
        return None;
    }
    let tag = s[pos];
    if tag == 0 {
        Some((pos + 1, GeoValue::Null))
    } else if tag == 1 {
        Some((pos + 1, GeoValue::Bool(false)))
    } else if tag == 2 {
        Some((pos + 1, GeoValue::Bool(true)))
    } else if tag == 3 {
        if pos + 1 < s.len() {
            let sign = s[pos + 1];
            let (p, mag) = match read_u64(s, pos + 2) {
                Some(v) => v,
                None => {
                    return None;
                },
            };
            if sign == 0 {
                if mag <= 0x7fff_ffff_ffff_ffff {
                    Some((p, GeoValue::Int(mag as i64)))
                } else {
                    None
                }
            } else if sign == 1 {
                if 1 <= mag && mag <= 0x8000_0000_0000_0000 {
                    let wide: i128 = -(mag as i128);
                    let i = wide as i64;
                    proof {
                        assert(i as int == -(mag as int));
                    }
                    Some((p, GeoValue::Int(i)))
                } else {
                    None
                }
            } else {
                None
            }
        } else {
            None
        }
    } else if tag == 4 {
        match read_u64(s, pos + 1) {
            Some((p, u)) => Some((p, GeoValue::UInt(u))),
            None => None,
        }
    } else if tag == 5 {
        match read_str(s, pos + 1) {
            Some((p, x)) => Some((p, GeoValue::Text(x))),
            None => None,
        }
    } else {
        None
    }
}

fn read_entries(s: &[u8], pos: usize, n: u64) -> (r: Option<(usize, Vec<(String, GeoValue)>)>)
    requires
        pos <= s@.len(),
    ensures
        r matches Some(ev) ==> d_entries(s@, pos as int, n as int) == Some(
            (ev.0 as int, crate::geometry::types::props_entries_view(ev.1@)),
        ) && pos <= ev.0 <= s@.len(),
        r is None ==> d_entries(s@, pos as int, n as int) is None,
{
    let mut acc: Vec<(String, GeoValue)> = Vec::new();
    let mut p = pos;
    let mut i: u64 = 0;
    proof {
        assert(crate::geometry::types::props_entries_view(acc@) =~= Seq::<
            (Seq<char>, GeoValueV),
        >::empty());
    }
    while i < n
        invariant
            pos <= p <= s@.len(),
            0 <= i <= n,
            d_entries(s@, pos as int, n as int) == (match d_entries(
                s@,
                p as int,
                n as int - i as int,
            ) {
                Some((pe, es)) => Some(
                    (pe, crate::geometry::types::props_entries_view(acc@) + es),
                ),
                None => None,
            }),
        decreases n - i,
    {
        let (p1, key) = match read_str(s, p) {
            Some(v) => v,
            None => {
                return None;
            },
        };
        let (p2, val) = match read_value(s, p1) {
            Some(v) => v,
            None => {
                return None;
            },
        };
        let ghost entry_view = (key@, val.deep());
        proof {
            assert(crate::geometry::types::props_entries_view(acc@.push((key, val)))
                =~= crate::geometry::types::props_entries_view(acc@).push(entry_view));
        }
        acc.push((key, val));
        p = p2;
        i = i + 1;
        proof {
            let pv = crate::geometry::types::props_entries_view(acc@);
            match d_entries(s@, p as int, n as int - i as int) {
                Some((pe, es)) => {
                    assert(pv + es =~= pv.drop_last() + (seq![entry_view] + es));
                },
                None => {},
            }
        }
    }
    proof {
        assert(crate::geometry::types::props_entries_view(acc@) + Seq::<
            (Seq<char>, GeoValueV),
        >::empty() =~= crate::geometry::types::props_entries_view(acc@));
    }
    Some((p, acc))
}

} // verus!

verus! {

fn read_feature(s: &[u8], pos: usize) -> (r: Option<(usize, Feature)>)
    requires
        pos <= s@.len(),
    ensures
        r matches Some(ev) ==> d_feature(s@, pos as int) == Some((ev.0 as int, ev.1.deep())) && pos
            <= ev.0 <= s@.len(),
        r is None ==> d_feature(s@, pos as int) is None,
{
    if pos >= s.len() {
        return None;
    }
    let idtag = s[pos];
    let (p1, id) = if idtag == 0 {
        (pos + 1, None)
    } else if idtag == 1 {
        match read_u64(s, pos + 1) {
            Some((p, x)) => (p, Some(x)),
            None => {
                return None;
            },
        }
    } else {
        return None;
    };
    let (p2, glen) = match read_u64(s, p1) {
        Some(v) => v,
        None => {
            return None;
        },
    };
    let (p3, geo) = match read_block(s, p2, glen) {
        Some(v) => v,
        None => {
            return None;
        },
    };
    if p3 >= s.len() {
        return None;
    }
    let ptag = s[p3];
    if ptag == 0 {
        Some((p3 + 1, Feature { id, geometry: Geometry { data: geo }, properties: None }))
    } else if ptag == 1 {
        let (p5, n) = match read_u64(s, p3 + 1) {
            Some(v) => v,
            None => {
                return None;
            },
        };
        let (p6, entries) = match read_entries(s, p5, n) {
            Some(v) => v,
            None => {
                return None;
            },
        };
        let props = GeoProperties::from_entries(entries);
        Some(
            (
                p6,
                Feature { id, geometry: Geometry { data: geo }, properties: Some(props) },
            ),
        )
    } else {
        None
    }
}

fn read_features(s: &[u8], pos: usize, n: u64) -> (r: Option<(usize, Vec<Feature>)>)
    requires
        pos <= s@.len(),
    ensures
        r matches Some(ev) ==> d_features(s@, pos as int, n as int) == Some(
            (ev.0 as int, features_view(ev.1@)),
        ) && pos <= ev.0 <= s@.len(),
        r is None ==> d_features(s@, pos as int, n as int) is None,
{
    let mut acc: Vec<Feature> = Vec::new();
    let mut p = pos;
    let mut i: u64 = 0;
    proof {
        assert(features_view(acc@) =~= Seq::<FeatureV>::empty());
    }
    while i < n
        invariant
            pos <= p <= s@.len(),
            0 <= i <= n,
            d_features(s@, pos as int, n as int) == (match d_features(
                s@,
                p as int,
                n as int - i as int,
            ) {
                Some((pe, fs)) => Some((pe, features_view(acc@) + fs)),
                None => None,
            }),
        decreases n - i,
    {
        let (p1, f) = match read_feature(s, p) {
            Some(v) => v,
            None => {
                return None;
            },
        };
        let ghost fview = f.deep();
        proof {
            assert(features_view(acc@.push(f)) =~= features_view(acc@).push(fview));
        }
        acc.push(f);
        p = p1;
        i = i + 1;
        proof {
            let pv = features_view(acc@);
            match d_features(s@, p as int, n as int - i as int) {
                Some((pe, fs)) => {
                    assert(pv + fs =~= pv.drop_last() + (seq![fview] + fs));
                },
                None => {},
            }
        }
    }
    proof {
        assert(features_view(acc@) + Seq::<FeatureV>::empty() =~= features_view(acc@));
    }
    Some((p, acc))
}

fn read_layer(s: &[u8], pos: usize) -> (r: Option<(usize, Layer)>)
    requires
        pos <= s@.len(),
    ensures
        r matches Some(ev) ==> d_layer(s@, pos as int) == Some((ev.0 as int, ev.1.deep())) && pos
            <= ev.0 <= s@.len(),
        r is None ==> d_layer(s@, pos as int) is None,
{
    let (p1, name) = match read_str(s, pos) {
        Some(v) => v,
        None => {
            return None;
        },
    };
    let (p2, ext) = match read_u64(s, p1) {
        Some(v) => v,
        None => {
            return None;
        },
    };
    let (p3, ver) = match read_u64(s, p2) {
        Some(v) => v,
        None => {
            return None;
        },
    };
    if !(ext <= 0xffff_ffff && ver <= 0xffff_ffff) {
        return None;
    }
    let (p4, cnt) = match read_u64(s, p3) {
        Some(v) => v,
        None => {
            return None;
        },
    };
    let (p5, features) = match read_features(s, p4, cnt) {
        Some(v) => v,
        None => {
            return None;
        },
    };
    Some((p5, Layer { name, extent: ext as u32, version: ver as u32, features }))
}

fn read_layers(s: &[u8], pos: usize, n: u64) -> (r: Option<(usize, Vec<Layer>)>)
    requires
        pos <= s@.len(),
    ensures
        r matches Some(ev) ==> d_layers(s@, pos as int, n as int) == Some(
            (ev.0 as int, layers_view(ev.1@)),
        ) && pos <= ev.0 <= s@.len(),
        r is None ==> d_layers(s@, pos as int, n as int) is None,
{
    let mut acc: Vec<Layer> = Vec::new();
    let mut p = pos;
    let mut i: u64 = 0;
    proof {
        assert(layers_view(acc@) =~= Seq::<LayerV>::empty());
    }
    while i < n
        invariant
            pos <= p <= s@.len(),
            0 <= i <= n,
            d_layers(s@, pos as int, n as int) == (match d_layers(
                s@,
                p as int,
                n as int - i as int,
            ) {
                Some((pe, ls)) => Some((pe, layers_view(acc@) + ls)),
                None => None,
            }),
        decreases n - i,
    {
        let (p1, l) = match read_layer(s, p) {
            Some(v) => v,
            None => {
                return None;
            },
        };
        let ghost lview = l.deep();
        proof {
            assert(layers_view(acc@.push(l)) =~= layers_view(acc@).push(lview));
        }
        acc.push(l);
        p = p1;
        i = i + 1;
        proof {
            let pv = layers_view(acc@);
            match d_layers(s@, p as int, n as int - i as int) {
                Some((pe, ls)) => {
                    assert(pv + ls =~= pv.drop_last() + (seq![lview] + ls));
                },
                None => {},
            }
        }
    }
    proof {
        assert(layers_view(acc@) + Seq::<LayerV>::empty() =~= layers_view(acc@));
    }
    Some((p, acc))
}

impl VectorTile {
    /// Decodes a payload; errs exactly on payloads that are not the
    /// encoding of a tile.
    pub fn from_blob(blob: &Blob) -> (r: Option<VectorTile>)
        ensures
            r matches Some(t) ==> d_tile(blob@) == Some(t.deep()),
            r is None ==> d_tile(blob@) is None,
    {
        let s = blob.as_slice();
        let (p1, n) = match read_u64(s, 0) {
            Some(v) => v,
            None => {
                return None;
            },
        };
        let (p2, layers) = match read_layers(s, p1, n) {
            Some(v) => v,
            None => {
                return None;
            },
        };
        if p2 == s.len() {
            let t = VectorTile { layers };
            proof {
                assert(t.deep().layers =~= layers_view(t.layers@));
                assert(t.deep() == (VectorTileV { layers: layers_view(t.layers@) }));
            }
            Some(t)
        } else {
            None
        }
    }
}

} // verus!
