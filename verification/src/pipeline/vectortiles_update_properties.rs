//! The property-update transform: joins vector-tile features against
//! tabular side-data by an id key and rewrites their properties.

use vstd::prelude::*;

use crate::geometry::codec::d_tile;
use crate::geometry::codec::tile_enc;
use crate::geometry::model::Feature;
use crate::geometry::model::FeatureV;
use crate::geometry::model::Layer;
use crate::geometry::model::LayerV;
use crate::geometry::model::VectorTile;
use crate::geometry::model::VectorTileV;
use crate::geometry::types::spec_props_get;
use crate::geometry::types::spec_props_update;
use crate::geometry::types::spec_stringify;
use crate::geometry::types::GeoProperties;
use crate::geometry::types::GeoValueV;
use crate::types::blob::Blob;
use crate::types::format::TileCompression;
use crate::utils::compression::decompress;
use crate::utils::compression::spec_decompress;

verus! {

/// The arguments of the transform: where the side-data lives, which field
/// joins tiles to rows, and how properties are rewritten.
#[derive(Debug)]
pub struct Args {
    /// Path of the data source the rows were read from.
    pub data_source_path: String,
    /// Property key that holds a feature's id in the tiles.
    pub id_field_tiles: String,
    /// Column that holds a row's id in the data source.
    pub id_field_values: String,
    /// Restrict the transform to this layer; all layers when absent.
    pub layer_name: Option<String>,
    /// Replace the feature's properties instead of updating them.
    pub replace_properties: bool,
    /// Drop features that end up without properties.
    pub remove_empty_properties: bool,
    /// Keep the id column in the joined rows.
    pub add_id: bool,
}

/// One row of side-data, keyed by its stringified id.
pub type PropsV = Seq<(Seq<char>, GeoValueV)>;

/// The row of a key: the first entry of the map that holds it.
pub open spec fn pm_get(m: Seq<(Seq<char>, PropsV)>, key: Seq<char>) -> Option<PropsV>
    decreases m.len(),
{
    if m.len() == 0 {
        None
    } else if m[0].0 == key {
        Some(m[0].1)
    } else {
        pm_get(m.subrange(1, m.len() as int), key)
    }
}

/// The map after setting a key: an existing entry is overwritten in place,
/// a new key goes to the end.
pub open spec fn pm_set(m: Seq<(Seq<char>, PropsV)>, key: Seq<char>, row: PropsV) -> Seq<
    (Seq<char>, PropsV),
>
    decreases m.len(),
{
    if m.len() == 0 {
        seq![(key, row)]
    } else if m[0].0 == key {
        seq![(key, row)] + m.subrange(1, m.len() as int)
    } else {
        seq![m[0]] + pm_set(m.subrange(1, m.len() as int), key, row)
    }
}

/// What one feature's properties become: absent when the feature has no
/// properties, no readable id, or no matching row; else the row (replace)
/// or the properties updated with the row.
pub open spec fn spec_update_props(
    props: Option<PropsV>,
    idf: Seq<char>,
    m: Seq<(Seq<char>, PropsV)>,
    replace: bool,
) -> Option<PropsV> {
    match props {
        None => None,
        Some(p) => match spec_props_get(p, idf) {
            None => None,
            Some(idv) => match pm_get(m, spec_stringify(idv)) {
                None => None,
                Some(row) => Some(
                    if replace {
                        row
                    } else {
                        spec_props_update(p, row)
                    },
                ),
            },
        },
    }
}

/// A transformed feature: id and geometry are kept, properties rewritten.
pub open spec fn spec_update_feature(
    f: FeatureV,
    idf: Seq<char>,
    m: Seq<(Seq<char>, PropsV)>,
    replace: bool,
) -> FeatureV {
    FeatureV {
        id: f.id,
        geometry: f.geometry,
        properties: spec_update_props(f.properties, idf, m, replace),
    }
}

/// Whether a transformed feature stays in its layer.
pub open spec fn spec_feature_kept(f: FeatureV, remove_empty: bool) -> bool {
    !remove_empty || match f.properties {
        Some(p) => p.len() > 0,
        None => false,
    }
}

/// A layer's features after the transform: each rewritten, then filtered.
pub open spec fn spec_update_features(
    fs: Seq<FeatureV>,
    idf: Seq<char>,
    m: Seq<(Seq<char>, PropsV)>,
    replace: bool,
    remove_empty: bool,
) -> Seq<FeatureV>
    decreases fs.len(),
{
    if fs.len() == 0 {
        Seq::empty()
    } else {
        let f2 = spec_update_feature(fs[0], idf, m, replace);
        (if spec_feature_kept(f2, remove_empty) {
            seq![f2]
        } else {
            Seq::empty()
        }) + spec_update_features(fs.subrange(1, fs.len() as int), idf, m, replace, remove_empty)
    }
}

/// A transformed layer: untouched when a layer filter names another layer.
pub open spec fn spec_update_layer(
    l: LayerV,
    layer_name: Option<Seq<char>>,
    idf: Seq<char>,
    m: Seq<(Seq<char>, PropsV)>,
    replace: bool,
    remove_empty: bool,
) -> LayerV {
    match layer_name {
        Some(n) if n != l.name => l,
        _ => LayerV {
            name: l.name,
            extent: l.extent,
            version: l.version,
            features: spec_update_features(l.features, idf, m, replace, remove_empty),
        },
    }
}

/// A transformed tile: every layer transformed.
pub open spec fn spec_update_tile(
    t: VectorTileV,
    layer_name: Option<Seq<char>>,
    idf: Seq<char>,
    m: Seq<(Seq<char>, PropsV)>,
    replace: bool,
    remove_empty: bool,
) -> VectorTileV {
    VectorTileV {
        layers: Seq::new(
            t.layers.len(),
            |i: int| spec_update_layer(t.layers[i], layer_name, idf, m, replace, remove_empty),
        ),
    }
}

/// The view of an argument's optional layer filter.
pub open spec fn layer_name_view(n: Option<String>) -> Option<Seq<char>> {
    match n {
        Some(s) => Some(s@),
        None => None,
    }
}

/// The view of the frozen side-data map.
pub open spec fn pm_view(m: Seq<(String, GeoProperties)>) -> Seq<(Seq<char>, PropsV)> {
    Seq::new(m.len(), |i: int| (m[i].0@, m[i].1@))
}

/// A transform failed on a tile: its payload is not a well-formed
/// compressed tile.
#[derive(Clone, Copy, Debug, PartialEq, Eq, Structural)]
pub enum TileCodecError {
    Decompression,
    VectorTileDecode,
}

/// The frozen per-tile worker: the arguments, the source's wire
/// compression, and the side-data map keyed by stringified id.
#[derive(Debug)]
pub struct Runner {
    pub args: Args,
    pub tile_compression: TileCompression,
    pub properties_map: Vec<(String, GeoProperties)>,
}

impl Runner {
    /// What this runner makes of a decoded tile.
    pub open spec fn spec_run_tile(self, t: VectorTileV) -> VectorTileV {
        spec_update_tile(
            t,
            layer_name_view(self.args.layer_name),
            self.args.id_field_tiles@,
            pm_view(self.properties_map@),
            self.args.replace_properties,
            self.args.remove_empty_properties,
        )
    }

    /// Looks a key up in the side-data map.
    fn map_lookup(&self, key: &String) -> (r: Option<&GeoProperties>)
        ensures
            r matches Some(p) ==> pm_get(pm_view(self.properties_map@), key@) == Some(p@),
            r is None ==> pm_get(pm_view(self.properties_map@), key@) is None,
    {
        let n = self.properties_map.len();
        let mut i: usize = 0;
        proof {
            assert(pm_view(self.properties_map@).subrange(0, n as int) =~= pm_view(
                self.properties_map@,
            ));
        }
        while i < n
            invariant
                i <= n,
                n == self.properties_map@.len(),
                pm_get(pm_view(self.properties_map@), key@) == pm_get(
                    pm_view(self.properties_map@).subrange(i as int, n as int),
                    key@,
                ),
            decreases n - i,
        {
            let ghost pre = pm_view(self.properties_map@).subrange(i as int, n as int);
            proof {
                assert(pre[0] == pm_view(self.properties_map@)[i as int]);
                assert(pre.subrange(1, pre.len() as int) =~= pm_view(
                    self.properties_map@,
                ).subrange(i + 1, n as int));
            }
            if self.properties_map[i].0 == *key {
                return Some(&self.properties_map[i].1);
            }
            i = i + 1;
        }
        proof {
            assert(pm_view(self.properties_map@).subrange(n as int, n as int) =~= Seq::<
                (Seq<char>, PropsV),
            >::empty());
        }
        None
    }

    /// Rewrites one feature.
    fn run_feature(&self, f: Feature) -> (r: Feature)
        ensures
            r.deep() == spec_update_feature(
                f.deep(),
                self.args.id_field_tiles@,
                pm_view(self.properties_map@),
                self.args.replace_properties,
            ),
    {
        let Feature { id, geometry, properties } = f;
        match properties {
            None => Feature { id, geometry, properties: None },
            Some(mut p) => {
                let idv = match p.get(self.args.id_field_tiles.as_str()) {
                    Some(v) => v.clone(),
                    None => {
                        return Feature { id, geometry, properties: None };
                    },
                };
                let key = idv.stringify();
                let row = match self.map_lookup(&key) {
                    Some(row) => row.clone(),
                    None => {
                        return Feature { id, geometry, properties: None };
                    },
                };
                if self.args.replace_properties {
                    Feature { id, geometry, properties: Some(row) }
                } else {
                    p.update(row);
                    Feature { id, geometry, properties: Some(p) }
                }
            },
        }
    }

    /// Rewrites one layer in place.
    fn run_layer(&self, l: Layer) -> (r: Layer)
        ensures
            r.deep() == spec_update_layer(
                l.deep(),
                layer_name_view(self.args.layer_name),
                self.args.id_field_tiles@,
                pm_view(self.properties_map@),
                self.args.replace_properties,
                self.args.remove_empty_properties,
            ),
    {
        match &self.args.layer_name {
            Some(n) if !(*n == l.name) => {
                return l;
            },
            _ => {},
        }
        let Layer { name, extent, version, features } = l;
        let ghost fs0 = Seq::new(features@.len(), |i: int| features@[i].deep());
        let mut rest = features;
        let mut out: Vec<Feature> = Vec::new();
        let ghost idf = self.args.id_field_tiles@;
        let ghost m = pm_view(self.properties_map@);
        let ghost repl = self.args.replace_properties;
        let ghost rm = self.args.remove_empty_properties;
        proof {
            assert(Seq::new(rest@.len(), |i: int| rest@[i].deep()) =~= fs0);
            assert(Seq::new(out@.len(), |i: int| out@[i].deep()) =~= Seq::<FeatureV>::empty());
        }
        while rest.len() > 0
            invariant
                idf == self.args.id_field_tiles@,
                m == pm_view(self.properties_map@),
                repl == self.args.replace_properties,
                rm == self.args.remove_empty_properties,
                Seq::new(out@.len(), |i: int| out@[i].deep()) + spec_update_features(
                    Seq::new(rest@.len(), |i: int| rest@[i].deep()),
                    idf,
                    m,
                    repl,
                    rm,
                ) =~= spec_update_features(fs0, idf, m, repl, rm),
            decreases rest@.len(),
        {
            let ghost rest_deep = Seq::new(rest@.len(), |i: int| rest@[i].deep());
            let f = rest.remove(0);
            proof {
                assert(rest_deep[0] == f.deep());
                assert(Seq::new(rest@.len(), |i: int| rest@[i].deep()) =~= rest_deep.subrange(
                    1,
                    rest_deep.len() as int,
                ));
            }
            let f2 = self.run_feature(f);
            let keep = if self.args.remove_empty_properties {
                match &f2.properties {
                    Some(p) => p.len() > 0,
                    None => false,
                }
            } else {
                true
            };
            let ghost out_pre = Seq::new(out@.len(), |i: int| out@[i].deep());
            if keep {
                let ghost f2d = f2.deep();
                out.push(f2);
                proof {
                    assert(Seq::new(out@.len(), |i: int| out@[i].deep()) =~= out_pre.push(f2d));
                    assert(out_pre.push(f2d) =~= out_pre + seq![f2d]);
                }
            }
        }
        proof {
            assert(Seq::new(rest@.len(), |i: int| rest@[i].deep()) =~= Seq::<FeatureV>::empty());
            assert(Seq::new(out@.len(), |i: int| out@[i].deep()) + Seq::<FeatureV>::empty()
                =~= Seq::new(out@.len(), |i: int| out@[i].deep()));
        }
        let r = Layer { name, extent, version, features: out };
        proof {
            assert(r.deep().features =~= spec_update_features(fs0, idf, m, repl, rm));
        }
        r
    }

    /// Rewrites a whole decoded tile.
    pub fn run_tile(&self, t: VectorTile) -> (r: VectorTile)
        ensures
            r.deep() == self.spec_run_tile(t.deep()),
    {
        let ghost t0 = t.deep();
        let mut rest = t.layers;
        let mut out: Vec<Layer> = Vec::new();
        proof {
            assert(Seq::new(rest@.len(), |i: int| rest@[i].deep()) =~= t0.layers);
        }
        while rest.len() > 0
            invariant
                out@.len() + rest@.len() == t0.layers.len(),
                forall|i: int|
                    0 <= i < rest@.len() ==> (#[trigger] rest@[i]).deep() == t0.layers[out@.len()
                        + i],
                forall|i: int|
                    0 <= i < out@.len() ==> (#[trigger] out@[i]).deep() == spec_update_layer(
                        t0.layers[i],
                        layer_name_view(self.args.layer_name),
                        self.args.id_field_tiles@,
                        pm_view(self.properties_map@),
                        self.args.replace_properties,
                        self.args.remove_empty_properties,
                    ),
            decreases rest@.len(),
        {
            let l = rest.remove(0);
            let l2 = self.run_layer(l);
            out.push(l2);
        }
        let r = VectorTile { layers: out };
        proof {
            assert(r.deep().layers =~= self.spec_run_tile(t0).layers);
        }
        r
    }

    /// Rewrites one tile payload: decompress, decode, transform, encode.
    /// Errs exactly on payloads that are not well-formed compressed tiles;
    /// the result is not recompressed.
    pub fn run(&self, blob: Blob) -> (r: Result<Option<Blob>, TileCodecError>)
        ensures
            match spec_decompress(blob@, self.tile_compression) {
                None => r == Err::<Option<Blob>, TileCodecError>(TileCodecError::Decompression),
                Some(d) => match d_tile(d) {
                    None => r == Err::<Option<Blob>, TileCodecError>(
                        TileCodecError::VectorTileDecode,
                    ),
                    Some(t) => (r matches Ok(o) && o matches Some(b) && b@ == tile_enc(
                        self.spec_run_tile(t),
                    )),
                },
            },
    {
        let data = match decompress(blob, &self.tile_compression) {
            Ok(d) => d,
            Err(_) => {
                return Err(TileCodecError::Decompression);
            },
        };
        let tile = match VectorTile::from_blob(&data) {
            Some(t) => t,
            None => {
                return Err(TileCodecError::VectorTileDecode);
            },
        };
        let out = self.run_tile(tile);
        Ok(Some(out.to_blob()))
    }
}

/// A transform could not be built from its side-data.
#[derive(Clone, Copy, Debug, PartialEq, Eq, Structural)]
pub struct MissingKeyColumn;

/// What the frozen map is for given side-data rows: each row keyed by the
/// stringified value of its id column (later rows win), the column itself
/// stripped unless ids are kept; nothing when a row lacks the column.
pub open spec fn spec_pm_build(
    acc: Seq<(Seq<char>, PropsV)>,
    rows: Seq<PropsV>,
    idf: Seq<char>,
    add_id: bool,
) -> Option<Seq<(Seq<char>, PropsV)>>
    decreases rows.len(),
{
    if rows.len() == 0 {
        Some(acc)
    } else {
        match spec_props_get(rows[0], idf) {
            None => None,
            Some(v) => spec_pm_build(
                pm_set(
                    acc,
                    spec_stringify(v),
                    if add_id {
                        rows[0]
                    } else {
                        crate::geometry::types::spec_props_remove(rows[0], idf)
                    },
                ),
                rows.subrange(1, rows.len() as int),
                idf,
                add_id,
            ),
        }
    }
}

proof fn lemma_pm_set_found(m: Seq<(Seq<char>, PropsV)>, key: Seq<char>, row: PropsV, i: int)
    requires
        0 <= i < m.len(),
        m[i].0 == key,
        forall|j: int| 0 <= j < i ==> m[j].0 != key,
    ensures
        pm_set(m, key, row) == m.update(i, (key, row)),
    decreases i,
{
    let sub = m.subrange(1, m.len() as int);
    if i == 0 {
        assert(pm_set(m, key, row) =~= m.update(0, (key, row)));
    } else {
        lemma_pm_set_found(sub, key, row, i - 1);
        assert(seq![m[0]] + sub.update(i - 1, (key, row)) =~= m.update(i, (key, row)));
    }
}

proof fn lemma_pm_set_missing(m: Seq<(Seq<char>, PropsV)>, key: Seq<char>, row: PropsV)
    requires
        forall|j: int| 0 <= j < m.len() ==> m[j].0 != key,
    ensures
        pm_set(m, key, row) == m.push((key, row)),
    decreases m.len(),
{
    if m.len() == 0 {
        assert(pm_set(m, key, row) =~= m.push((key, row)));
    } else {
        let sub = m.subrange(1, m.len() as int);
        lemma_pm_set_missing(sub, key, row);
        assert(seq![m[0]] + sub.push((key, row)) =~= m.push((key, row)));
    }
}

/// Sets one row in the frozen map: a present key is overwritten in place,
/// a new key goes to the end.
fn pm_put(m: &mut Vec<(String, GeoProperties)>, key: String, row: GeoProperties)
    ensures
        pm_view(final(m)@) == pm_set(pm_view(old(m)@), key@, row@),
{
    let ghost orig = pm_view(m@);
    let n = m.len();
    let mut i: usize = 0;
    while i < n
        invariant
            i <= n,
            n == m@.len(),
            orig == pm_view(m@),
            orig == pm_view(old(m)@),
            forall|j: int| 0 <= j < i ==> (#[trigger] pm_view(m@)[j]).0 != key@,
        decreases n - i,
    {
        if m[i].0 == key {
            let ghost row_view = row@;
            let _old_entry = m.remove(i);
            m.insert(i, (key, row));
            proof {
                lemma_pm_set_found(orig, key@, row_view, i as int);
                assert(pm_view(m@) =~~= orig.update(i as int, (key@, row_view)));
            }
            return ;
        }
        i = i + 1;
    }
    let ghost row_view = row@;
    m.push((key, row));
    proof {
        lemma_pm_set_missing(orig, key@, row_view);
        assert(pm_view(m@) =~~= orig.push((key@, row_view)));
    }
}

/// The views of side-data rows.
pub open spec fn rows_view(rows: Seq<GeoProperties>) -> Seq<PropsV> {
    Seq::new(rows.len(), |i: int| rows[i]@)
}

/// Builds the frozen side-data map from rows: each row keyed by the
/// stringified value of its id column, later rows winning; the id column
/// is stripped unless ids are kept. Errs exactly when a row lacks the
/// column.
pub fn build_properties_map(rows: Vec<GeoProperties>, id_field_values: &str, add_id: bool) -> (r:
    Result<Vec<(String, GeoProperties)>, MissingKeyColumn>)
    ensures
        match spec_pm_build(Seq::empty(), rows_view(rows@), id_field_values@, add_id) {
            Some(m) => (r matches Ok(v) && pm_view(v@) == m),
            None => r is Err,
        },
{
    let ghost rows0 = rows_view(rows@);
    let mut rest = rows;
    let mut m: Vec<(String, GeoProperties)> = Vec::new();
    proof {
        assert(rows_view(rest@) =~= rows0);
        assert(pm_view(m@) =~= Seq::<(Seq<char>, PropsV)>::empty());
    }
    while rest.len() > 0
        invariant
            rows0 == rows_view(rows@),
            spec_pm_build(pm_view(m@), rows_view(rest@), id_field_values@, add_id)
                == spec_pm_build(Seq::empty(), rows0, id_field_values@, add_id),
        decreases rest@.len(),
    {
        let ghost rest_pre = rows_view(rest@);
        let mut row = rest.remove(0);
        proof {
            assert(rest_pre[0] == row@);
            assert(rows_view(rest@) =~= rest_pre.subrange(1, rest_pre.len() as int));
        }
        let idv = match row.get(id_field_values) {
            Some(v) => v.clone(),
            None => {
                return Err(MissingKeyColumn);
            },
        };
        let key = idv.stringify();
        if !add_id {
            row.remove(id_field_values);
        }
        pm_put(&mut m, key, row);
    }
    proof {
        assert(rows_view(rest@) =~= Seq::<PropsV>::empty());
    }
    Ok(m)
}

/// The key of every row in the map reads back out of the row itself: the
/// row must hold the join field with its own key's value, or — when
/// updating rather than replacing — not hold the join field at all.
pub open spec fn row_key_readable(
    key: Seq<char>,
    row: PropsV,
    idf: Seq<char>,
    replace: bool,
) -> bool {
    if replace {
        match spec_props_get(row, idf) {
            Some(v) => spec_stringify(v) == key,
            None => false,
        }
    } else {
        match spec_props_get(row, idf) {
            Some(v) => spec_stringify(v) == key,
            None => true,
        }
    }
}

/// Every map row keeps its key readable and holds each property key once.
pub open spec fn pm_rows_idempotent(
    m: Seq<(Seq<char>, PropsV)>,
    idf: Seq<char>,
    replace: bool,
) -> bool {
    forall|j: int|
        0 <= j < m.len() ==> row_key_readable((#[trigger] m[j]).0, m[j].1, idf, replace)
            && crate::geometry::types::props_distinct(m[j].1)
}

/// Every feature of the tile holds each property key once.
pub open spec fn tile_props_distinct(t: VectorTileV) -> bool {
    forall|i: int, j: int|
        0 <= i < t.layers.len() && 0 <= j < (#[trigger] t.layers[i]).features.len()
            ==> match (#[trigger] t.layers[i].features[j]).properties {
            Some(p) => crate::geometry::types::props_distinct(p),
            None => true,
        }
}

proof fn lemma_pm_get_entry(m: Seq<(Seq<char>, PropsV)>, key: Seq<char>)
    requires
        pm_get(m, key) is Some,
    ensures
        exists|j: int|
            0 <= j < m.len() && (#[trigger] m[j]).0 == key && m[j].1 == pm_get(m, key).unwrap(),
    decreases m.len(),
{
    if m[0].0 == key {
        assert(m[0].0 == key && m[0].1 == pm_get(m, key).unwrap());
    } else {
        lemma_pm_get_entry(m.subrange(1, m.len() as int), key);
        let sub = m.subrange(1, m.len() as int);
        let j = choose|j: int|
            0 <= j < sub.len() && (#[trigger] sub[j]).0 == key && sub[j].1 == pm_get(
                sub,
                key,
            ).unwrap();
        assert(m[j + 1].0 == key && m[j + 1].1 == pm_get(m, key).unwrap());
    }
}

proof fn lemma_update_feature_idempotent(
    f: FeatureV,
    idf: Seq<char>,
    m: Seq<(Seq<char>, PropsV)>,
    replace: bool,
)
    requires
        match f.properties {
            Some(p) => crate::geometry::types::props_distinct(p),
            None => true,
        },
        pm_rows_idempotent(m, idf, replace),
    ensures
        spec_update_feature(spec_update_feature(f, idf, m, replace), idf, m, replace)
            == spec_update_feature(f, idf, m, replace),
{
    match f.properties {
        None => {},
        Some(p) => {
            match spec_props_get(p, idf) {
                None => {},
                Some(idv) => {
                    let key = spec_stringify(idv);
                    match pm_get(m, key) {
                        None => {},
                        Some(row) => {
                            lemma_pm_get_entry(m, key);
                            if replace {
                            } else {
                                let p1 = spec_props_update(p, row);
                                crate::geometry::types::lemma_get_of_update(p, row, idf);
                                crate::geometry::types::lemma_last_get_eq_get(row, idf);
                                crate::geometry::types::lemma_update_idempotent(p, row);
                            }
                        },
                    }
                },
            }
        },
    }
}

proof fn lemma_update_features_idempotent(
    fs: Seq<FeatureV>,
    idf: Seq<char>,
    m: Seq<(Seq<char>, PropsV)>,
    replace: bool,
    remove_empty: bool,
)
    requires
        forall|j: int|
            0 <= j < fs.len() ==> match (#[trigger] fs[j]).properties {
                Some(p) => crate::geometry::types::props_distinct(p),
                None => true,
            },
        pm_rows_idempotent(m, idf, replace),
    ensures
        spec_update_features(
            spec_update_features(fs, idf, m, replace, remove_empty),
            idf,
            m,
            replace,
            remove_empty,
        ) == spec_update_features(fs, idf, m, replace, remove_empty),
    decreases fs.len(),
{
    if fs.len() == 0 {
    } else {
        let rest = fs.subrange(1, fs.len() as int);
        let f2 = spec_update_feature(fs[0], idf, m, replace);
        lemma_update_feature_idempotent(fs[0], idf, m, replace);
        lemma_update_features_idempotent(rest, idf, m, replace, remove_empty);
        let once = spec_update_features(fs, idf, m, replace, remove_empty);
        let once_rest = spec_update_features(rest, idf, m, replace, remove_empty);
        if spec_feature_kept(f2, remove_empty) {
            assert(once =~= seq![f2] + once_rest);
            assert(once.subrange(1, once.len() as int) =~= once_rest);
            assert(spec_update_features(once, idf, m, replace, remove_empty) =~= once);
        } else {
            assert(once =~= once_rest);
        }
    }
}

/// Running the transform twice with the same side-data changes nothing
/// after the first run, provided each feature holds each property key once
/// and every row of the map keeps its own join key readable — as rows do
/// when the join field names the id column and ids are kept, and also
/// whenever the rows simply leave the join field alone. A row that
/// overwrites the join field with another id breaks this and is excluded
/// by the condition.
pub proof fn lemma_update_tile_idempotent(
    t: VectorTileV,
    layer_name: Option<Seq<char>>,
    idf: Seq<char>,
    m: Seq<(Seq<char>, PropsV)>,
    replace: bool,
    remove_empty: bool,
)
    requires
        tile_props_distinct(t),
        pm_rows_idempotent(m, idf, replace),
    ensures
        spec_update_tile(
            spec_update_tile(t, layer_name, idf, m, replace, remove_empty),
            layer_name,
            idf,
            m,
            replace,
            remove_empty,
        ) == spec_update_tile(t, layer_name, idf, m, replace, remove_empty),
{
    let once = spec_update_tile(t, layer_name, idf, m, replace, remove_empty);
    let twice = spec_update_tile(once, layer_name, idf, m, replace, remove_empty);
    assert forall|i: int| 0 <= i < t.layers.len() implies #[trigger] twice.layers[i]
        == once.layers[i] by {
        let l = t.layers[i];
        match layer_name {
            Some(n) if n != l.name => {},
            _ => {
                assert forall|j: int|
                    0 <= j < l.features.len() implies match (#[trigger] l.features[j]).properties {
                    Some(p) => crate::geometry::types::props_distinct(p),
                    None => true,
                } by {
                    assert(t.layers[i].features[j] == l.features[j]);
                }
                lemma_update_features_idempotent(l.features, idf, m, replace, remove_empty);
            },
        }
    }
    assert(twice.layers =~= once.layers);
}

} // verus!
