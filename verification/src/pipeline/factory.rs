//! Builds operation trees from parsed pipeline documents: the left-most
//! node of a pipeline reads, later nodes transform, and composite nodes
//! build their children recursively.

use vstd::prelude::*;

use crate::geometry::types::GeoProperties;
use crate::pipeline::operation::model_params;
use crate::pipeline::operation::ConfigError;
use crate::pipeline::operation::OpModel;
use crate::pipeline::operation::Operation;
use crate::pipeline::operation::OverlayModel;
use crate::pipeline::operation::UpdateModel;
use crate::pipeline::source::MemTileSource;
use crate::pipeline::vectortiles_update_properties::rows_view;
use crate::pipeline::vectortiles_update_properties::spec_pm_build;
use crate::pipeline::vectortiles_update_properties::Args;
use crate::types::bbox::TileBBox;
use crate::types::format::TileCompression;
use crate::types::format::TileFormat;
use crate::vdl::ast::VDLNode;
use crate::vdl::ast::VDLNodeView;
use crate::vdl::ast::VDLPipeline;
use crate::vdl::ast::VDLPipelineView;

verus! {

broadcast use vstd::std_specs::vec::axiom_vec_index_decreases;

/// What the outside world supplies to a pipeline before it is built: one
/// loaded tile source per file name a `read` node may reference, and one
/// row table per data-source path the transform may reference.
pub struct PipelineResources {
    pub readers: Vec<(String, MemTileSource)>,
    pub tables: Vec<(String, Vec<GeoProperties>)>,
}

/// The mathematical content of the provided resources.
pub struct ResourcesV {
    pub readers: Seq<(Seq<char>, MemTileSource)>,
    pub tables: Seq<(Seq<char>, Vec<GeoProperties>)>,
}

/// The views of the loaded sources.
pub open spec fn readers_view(v: Seq<(String, MemTileSource)>) -> Seq<(Seq<char>, MemTileSource)> {
    Seq::new(v.len(), |i: int| (v[i].0@, v[i].1))
}

/// The views of the loaded row tables.
pub open spec fn tables_view(v: Seq<(String, Vec<GeoProperties>)>) -> Seq<
    (Seq<char>, Vec<GeoProperties>),
> {
    Seq::new(v.len(), |i: int| (v[i].0@, v[i].1))
}

/// The source stored under a name, and the resources without it; nothing
/// when no source carries the name.
pub open spec fn spec_take_reader(rs: Seq<(Seq<char>, MemTileSource)>, name: Seq<char>) -> Option<
    (MemTileSource, Seq<(Seq<char>, MemTileSource)>),
>
    decreases rs.len(),
{
    if rs.len() == 0 {
        None
    } else if rs[0].0 == name {
        Some((rs[0].1, rs.subrange(1, rs.len() as int)))
    } else {
        match spec_take_reader(rs.subrange(1, rs.len() as int), name) {
            None => None,
            Some((x, rest)) => Some((x, seq![rs[0]] + rest)),
        }
    }
}

/// The table stored under a name, and the resources without it.
pub open spec fn spec_take_table(
    ts: Seq<(Seq<char>, Vec<GeoProperties>)>,
    name: Seq<char>,
) -> Option<(Vec<GeoProperties>, Seq<(Seq<char>, Vec<GeoProperties>)>)>
    decreases ts.len(),
{
    if ts.len() == 0 {
        None
    } else if ts[0].0 == name {
        Some((ts[0].1, ts.subrange(1, ts.len() as int)))
    } else {
        match spec_take_table(ts.subrange(1, ts.len() as int), name) {
            None => None,
            Some((x, rest)) => Some((x, seq![ts[0]] + rest)),
        }
    }
}

proof fn lemma_take_reader_found(rs: Seq<(Seq<char>, MemTileSource)>, name: Seq<char>, i: int)
    requires
        0 <= i < rs.len(),
        rs[i].0 == name,
        forall|j: int| 0 <= j < i ==> (#[trigger] rs[j]).0 != name,
    ensures
        spec_take_reader(rs, name) == Some((rs[i].1, rs.remove(i))),
    decreases i,
{
    let sub = rs.subrange(1, rs.len() as int);
    if i == 0 {
        assert(rs.remove(0) =~= sub);
    } else {
        lemma_take_reader_found(sub, name, i - 1);
        assert(seq![rs[0]] + sub.remove(i - 1) =~= rs.remove(i));
    }
}

proof fn lemma_take_reader_missing(rs: Seq<(Seq<char>, MemTileSource)>, name: Seq<char>)
    requires
        forall|j: int| 0 <= j < rs.len() ==> (#[trigger] rs[j]).0 != name,
    ensures
        spec_take_reader(rs, name) is None,
    decreases rs.len(),
{
    if rs.len() > 0 {
        lemma_take_reader_missing(rs.subrange(1, rs.len() as int), name);
    }
}

proof fn lemma_take_table_found(
    ts: Seq<(Seq<char>, Vec<GeoProperties>)>,
    name: Seq<char>,
    i: int,
)
    requires
        0 <= i < ts.len(),
        ts[i].0 == name,
        forall|j: int| 0 <= j < i ==> (#[trigger] ts[j]).0 != name,
    ensures
        spec_take_table(ts, name) == Some((ts[i].1, ts.remove(i))),
    decreases i,
{
    let sub = ts.subrange(1, ts.len() as int);
    if i == 0 {
        assert(ts.remove(0) =~= sub);
    } else {
        lemma_take_table_found(sub, name, i - 1);
        assert(seq![ts[0]] + sub.remove(i - 1) =~= ts.remove(i));
    }
}

proof fn lemma_take_table_missing(ts: Seq<(Seq<char>, Vec<GeoProperties>)>, name: Seq<char>)
    requires
        forall|j: int| 0 <= j < ts.len() ==> (#[trigger] ts[j]).0 != name,
    ensures
        spec_take_table(ts, name) is None,
    decreases ts.len(),
{
    if ts.len() > 0 {
        lemma_take_table_missing(ts.subrange(1, ts.len() as int), name);
    }
}

impl PipelineResources {
    /// Every provided source is valid.
    pub open spec fn wf(self) -> bool {
        forall|i: int| 0 <= i < self.readers@.len() ==> (#[trigger] self.readers@[i]).1.wf()
    }

    /// The resources' mathematical content.
    pub open spec fn spec_res(self) -> ResourcesV {
        ResourcesV { readers: readers_view(self.readers@), tables: tables_view(self.tables@) }
    }

    /// Hands out the source stored under a file name, removing it; each
    /// source is used at most once.
    fn take_reader(&mut self, name: &String) -> (r: Option<MemTileSource>)
        requires
            old(self).wf(),
        ensures
            final(self).wf(),
            match spec_take_reader(old(self).spec_res().readers, name@) {
                None => (r is None && final(self).spec_res() == old(self).spec_res()),
                Some((src, rest)) => {
                    &&& r == Some(src)
                    &&& final(self).spec_res().readers == rest
                    &&& final(self).spec_res().tables == old(self).spec_res().tables
                    &&& src.wf()
                },
            },
    {
        let ghost rv = readers_view(self.readers@);
        let n = self.readers.len();
        let mut i: usize = 0;
        while i < n
            invariant
                i <= n,
                n == self.readers@.len(),
                self.wf(),
                rv == readers_view(self.readers@),
                rv == readers_view(old(self).readers@),
                self.tables@ == old(self).tables@,
                forall|j: int| 0 <= j < i ==> (#[trigger] rv[j]).0 != name@,
            decreases n - i,
        {
            if self.readers[i].0 == *name {
                proof {
                    assert(rv[i as int].0 == name@);
                    lemma_take_reader_found(rv, name@, i as int);
                }
                let (_, src) = self.readers.remove(i);
                proof {
                    assert(readers_view(self.readers@) =~= rv.remove(i as int));
                }
                return Some(src);
            }
            proof {
                assert(rv[i as int].0 == self.readers@[i as int].0@);
            }
            i = i + 1;
        }
        proof {
            lemma_take_reader_missing(rv, name@);
        }
        None
    }

    /// Hands out the rows stored under a data-source path, removing them.
    fn take_table(&mut self, name: &String) -> (r: Option<Vec<GeoProperties>>)
        requires
            old(self).wf(),
        ensures
            final(self).wf(),
            match spec_take_table(old(self).spec_res().tables, name@) {
                None => (r is None && final(self).spec_res() == old(self).spec_res()),
                Some((rows, rest)) => {
                    &&& r == Some(rows)
                    &&& final(self).spec_res().tables == rest
                    &&& final(self).spec_res().readers == old(self).spec_res().readers
                },
            },
    {
        let ghost tv = tables_view(self.tables@);
        let n = self.tables.len();
        let mut i: usize = 0;
        while i < n
            invariant
                i <= n,
                n == self.tables@.len(),
                self.wf(),
                tv == tables_view(self.tables@),
                tv == tables_view(old(self).tables@),
                self.readers@ == old(self).readers@,
                forall|j: int| 0 <= j < i ==> (#[trigger] tv[j]).0 != name@,
            decreases n - i,
        {
            if self.tables[i].0 == *name {
                proof {
                    assert(tv[i as int].0 == name@);
                    lemma_take_table_found(tv, name@, i as int);
                }
                let (_, rows) = self.tables.remove(i);
                proof {
                    assert(tables_view(self.tables@) =~= tv.remove(i as int));
                }
                return Some(rows);
            }
            proof {
                assert(tv[i as int].0 == self.tables@[i as int].0@);
            }
            i = i + 1;
        }
        proof {
            lemma_take_table_missing(tv, name@);
        }
        None
    }
}

/// The first value of a property: the first entry that holds the key, its
/// first value; nothing when the key is absent or its value list is empty.
pub open spec fn spec_get_property(
    props: Seq<(Seq<char>, Seq<Seq<char>>)>,
    key: Seq<char>,
) -> Option<Seq<char>>
    decreases props.len(),
{
    if props.len() == 0 {
        None
    } else if props[0].0 == key {
        if props[0].1.len() > 0 {
            Some(props[0].1[0])
        } else {
            None
        }
    } else {
        spec_get_property(props.subrange(1, props.len() as int), key)
    }
}

/// The first value of a node's property, if the property is present.
fn get_property(node: &VDLNode, key: &str) -> (r: Option<String>)
    ensures
        r matches Some(v) ==> spec_get_property(
            crate::vdl::parser::props_deep(node.properties@),
            key@,
        ) == Some(v@),
        r is None ==> spec_get_property(
            crate::vdl::parser::props_deep(node.properties@),
            key@,
        ) is None,
{
    let ghost pv = crate::vdl::parser::props_deep(node.properties@);
    let key_owned = key.to_owned();
    let n = node.properties.len();
    let mut i: usize = 0;
    proof {
        assert(pv.subrange(0, n as int) =~= pv);
    }
    while i < n
        invariant
            i <= n,
            n == node.properties@.len(),
            pv == crate::vdl::parser::props_deep(node.properties@),
            key_owned@ == key@,
            spec_get_property(pv, key@) == spec_get_property(
                pv.subrange(i as int, n as int),
                key@,
            ),
        decreases n - i,
    {
        let ghost pre = pv.subrange(i as int, n as int);
        proof {
            assert(pre[0] == pv[i as int]);
            assert(pre.subrange(1, pre.len() as int) =~= pv.subrange(i + 1, n as int));
        }
        if node.properties[i].0 == key_owned {
            if node.properties[i].1.len() > 0 {
                return Some(node.properties[i].1[0].clone());
            } else {
                return None;
            }
        }
        i = i + 1;
    }
    proof {
        assert(pv.subrange(n as int, n as int) =~= Seq::<(Seq<char>, Seq<Seq<char>>)>::empty());
    }
    None
}

/// A boolean property: absent means false; anything but `true` and
/// `false` is rejected.
fn get_bool_property(node: &VDLNode, key: &str) -> (r: Result<bool, ConfigError>)
    ensures
        r == spec_get_bool(crate::vdl::parser::props_deep(node.properties@), key@),
{
    match get_property(node, key) {
        None => Ok(false),
        Some(v) => {
            let t: &str = "true";
            let f: &str = "false";
            if v == t.to_owned() {
                Ok(true)
            } else if v == f.to_owned() {
                Ok(false)
            } else {
                Err(ConfigError::InvalidPropertyValue)
            }
        },
    }
}

fn node_name_is(node: &VDLNode, name: &str) -> (r: bool)
    ensures
        r == (node.name@ == name@),
{
    node.name == name.to_owned()
}

/// What a boolean property means: absent is false; anything but `true`
/// and `false` is rejected.
pub open spec fn spec_get_bool(
    props: Seq<(Seq<char>, Seq<Seq<char>>)>,
    key: Seq<char>,
) -> Result<bool, ConfigError> {
    match spec_get_property(props, key) {
        None => Ok(false),
        Some(v) => if v == "true"@ {
            Ok(true)
        } else if v == "false"@ {
            Ok(false)
        } else {
            Err(ConfigError::InvalidPropertyValue)
        },
    }
}

/// The metadata a modelled node hands out.
pub open spec fn model_meta(m: OpModel) -> Option<Seq<u8>> {
    match m {
        OpModel::Read(src) => match src.spec_meta() {
            Some(b) => Some(b@),
            None => None,
        },
        OpModel::Overlay(_) => None,
        OpModel::UpdateProperties(u) => u.meta,
    }
}

/// The models of built sources.
pub open spec fn models_of(v: Seq<Operation>) -> Seq<OpModel> {
    Seq::new(v.len(), |i: int| v[i].model())
}

/// The hull of the first `k+1` modelled sources' pyramids at one level.
pub open spec fn spec_pyr_hull_m(ms: Seq<OpModel>, k: int, lv: int) -> TileBBox
    decreases k,
{
    if k <= 0 {
        model_params(ms[0]).2[lv]
    } else {
        spec_pyr_hull_m(ms, k - 1, lv).spec_hull(model_params(ms[k]).2[lv])
    }
}

/// What the built overlay over modelled sources is: one shared format,
/// the shared compression or none, the per-level hull of the pyramids.
pub open spec fn spec_assemble_overlay(ms: Seq<OpModel>, res: ResourcesV) -> Result<
    (OpModel, ResourcesV),
    ConfigError,
> {
    if ms.len() == 0 {
        Err(ConfigError::NoChildren)
    } else if exists|k: int|
        0 <= k < ms.len() && model_params(#[trigger] ms[k]).0 != model_params(ms[0]).0 {
        Err(ConfigError::MismatchedFormats)
    } else {
        Ok(
            (
                OpModel::Overlay(
                    OverlayModel {
                        format: model_params(ms[0]).0,
                        compression: if forall|k: int|
                            0 <= k < ms.len() ==> model_params(#[trigger] ms[k]).1 == model_params(
                                ms[0],
                            ).1 {
                            model_params(ms[0]).1
                        } else {
                            TileCompression::Uncompressed
                        },
                        pyramid: Seq::new(33, |lv: int| spec_pyr_hull_m(ms, ms.len() - 1, lv)),
                        sources: ms,
                    },
                ),
                res,
            ),
        )
    }
}

/// What the transform a non-leading node names builds over a source's
/// model, and what it leaves of the resources.
pub open spec fn spec_build_transform(nv: VDLNodeView, src: OpModel, res: ResourcesV) -> Result<
    (OpModel, ResourcesV),
    ConfigError,
> {
    if nv.name != "vectortiles_update_properties"@ {
        Err(ConfigError::UnknownOperation)
    } else if nv.children.len() > 0 {
        Err(ConfigError::UnknownOperation)
    } else {
        match spec_get_property(nv.properties, "data_source_path"@) {
            None => Err(ConfigError::MissingProperty),
            Some(dsp) => match spec_get_property(nv.properties, "id_field_tiles"@) {
                None => Err(ConfigError::MissingProperty),
                Some(idt) => match spec_get_property(nv.properties, "id_field_values"@) {
                    None => Err(ConfigError::MissingProperty),
                    Some(idv) => {
                        let layer_name = spec_get_property(nv.properties, "layer_name"@);
                        match spec_get_bool(nv.properties, "replace_properties"@) {
                            Err(e) => Err(e),
                            Ok(replace_properties) => match spec_get_bool(
                                nv.properties,
                                "remove_empty_properties"@,
                            ) {
                                Err(e) => Err(e),
                                Ok(remove_empty_properties) => match spec_get_bool(
                                    nv.properties,
                                    "add_id"@,
                                ) {
                                    Err(e) => Err(e),
                                    Ok(add_id) => match spec_take_table(res.tables, dsp) {
                                        None => Err(ConfigError::UnknownTable),
                                        Some((rows, trest)) => {
                                            if model_params(src).0 != TileFormat::PBF {
                                                Err(ConfigError::SourceNotVector)
                                            } else {
                                                match spec_pm_build(
                                                    Seq::empty(),
                                                    rows_view(rows@),
                                                    idv,
                                                    add_id,
                                                ) {
                                                    None => Err(ConfigError::MissingKeyColumn),
                                                    Some(map) => Ok(
                                                        (
                                                            OpModel::UpdateProperties(
                                                                Box::new(
                                                                    UpdateModel {
                                                                        data_source_path: dsp,
                                                                        id_field_tiles: idt,
                                                                        id_field_values: idv,
                                                                        layer_name,
                                                                        replace_properties,
                                                                        remove_empty_properties,
                                                                        add_id,
                                                                        compression: model_params(
                                                                            src,
                                                                        ).1,
                                                                        pyramid: model_params(
                                                                            src,
                                                                        ).2,
                                                                        map,
                                                                        meta: model_meta(src),
                                                                        source: src,
                                                                    },
                                                                ),
                                                            ),
                                                            ResourcesV {
                                                                readers: res.readers,
                                                                tables: trest,
                                                            },
                                                        ),
                                                    ),
                                                }
                                            }
                                        },
                                    },
                                },
                            },
                        }
                    },
                },
            },
        }
    }
}

/// The transforms of a pipeline's trailing nodes, folded left to right
/// over the built read operation.
pub open spec fn spec_build_transforms(
    nodes: Seq<VDLNodeView>,
    i: int,
    cur: OpModel,
    res: ResourcesV,
) -> Result<(OpModel, ResourcesV), ConfigError>
    decreases nodes.len() - i,
{
    if i < 0 || i >= nodes.len() {
        Ok((cur, res))
    } else {
        match spec_build_transform(nodes[i], cur, res) {
            Err(e) => Err(e),
            Ok((m, r2)) => spec_build_transforms(nodes, i + 1, m, r2),
        }
    }
}

/// What a pipeline's left-most node builds: a read leaf over the source
/// its file name selects, or an overlay over its children.
pub open spec fn spec_build_read(nv: VDLNodeView, res: ResourcesV) -> Result<
    (OpModel, ResourcesV),
    ConfigError,
>
    decreases nv, 1int,
{
    if nv.name == "read"@ {
        if nv.children.len() > 0 {
            Err(ConfigError::UnknownOperation)
        } else {
            match spec_get_property(nv.properties, "filename"@) {
                None => Err(ConfigError::MissingProperty),
                Some(f) => match spec_take_reader(res.readers, f) {
                    None => Err(ConfigError::UnknownFile),
                    Some((src, rrest)) => Ok(
                        (
                            OpModel::Read(src),
                            ResourcesV { readers: rrest, tables: res.tables },
                        ),
                    ),
                },
            }
        }
    } else if nv.name == "overlay_tiles"@ {
        match spec_build_children(nv.children, 0, res) {
            Err(e) => Err(e),
            Ok((ms, r2)) => spec_assemble_overlay(ms, r2),
        }
    } else {
        Err(ConfigError::UnknownOperation)
    }
}

/// The models of a bracketed child list, built left to right.
pub open spec fn spec_build_children(
    chs: Seq<VDLPipelineView>,
    i: int,
    res: ResourcesV,
) -> Result<(Seq<OpModel>, ResourcesV), ConfigError>
    decreases chs, chs.len() - i,
{
    if i < 0 || i >= chs.len() {
        Ok((Seq::empty(), res))
    } else {
        match spec_build_pipeline(chs[i], res) {
            Err(e) => Err(e),
            Ok((m, r2)) => match spec_build_children(chs, i + 1, r2) {
                Err(e) => Err(e),
                Ok((ms, r3)) => Ok((seq![m] + ms, r3)),
            },
        }
    }
}

/// What a whole pipeline builds: its left-most node read, the rest folded
/// over it as transforms.
pub open spec fn spec_build_pipeline(pv: VDLPipelineView, res: ResourcesV) -> Result<
    (OpModel, ResourcesV),
    ConfigError,
>
    decreases pv, 2int,
{
    if pv.pipeline.len() == 0 {
        Err(ConfigError::EmptyPipeline)
    } else {
        match spec_build_read(pv.pipeline[0], res) {
            Err(e) => Err(e),
            Ok((m0, r2)) => spec_build_transforms(pv.pipeline, 1, m0, r2),
        }
    }
}

/// Builds operation trees from parsed pipelines against provided
/// resources.
pub struct PipelineFactory {}

impl PipelineFactory {
    /// Builds the read operation of a pipeline's left-most node — a `read`
    /// leaf over a loaded file, or an `overlay_tiles` over child
    /// pipelines: exactly what the specification builder makes of the node
    /// against the resources.
    pub fn build_read_operation(node: &VDLNode, res: &mut PipelineResources) -> (r: Result<
        Operation,
        ConfigError,
    >)
        requires
            old(res).wf(),
        ensures
            final(res).wf(),
            match spec_build_read(node.deep(), old(res).spec_res()) {
                Err(e) => r == Err::<Operation, ConfigError>(e),
                Ok((m, r2)) => (r matches Ok(op) && op.wf() && op.model() == m
                    && final(res).spec_res() == r2),
            },
        decreases *node, 0int,
    {
        proof {
            assert(node.deep().properties =~= crate::vdl::parser::props_deep(node.properties@));
        }
        if node_name_is(node, "read") {
            if node.children.len() > 0 {
                return Err(ConfigError::UnknownOperation);
            }
            let filename = match get_property(node, "filename") {
                Some(f) => f,
                None => {
                    return Err(ConfigError::MissingProperty);
                },
            };
            let src = match res.take_reader(&filename) {
                Some(s) => s,
                None => {
                    return Err(ConfigError::UnknownFile);
                },
            };
            let op = Operation::new_read(src);
            proof {
                assert(op.model() == OpModel::Read(src));
                let r2 = spec_build_read(node.deep(), old(res).spec_res()).unwrap().1;
                assert(res.spec_res().readers == r2.readers);
                assert(res.spec_res().tables == r2.tables);
                assert(res.spec_res() == r2);
            }
            Ok(op)
        } else if node_name_is(node, "overlay_tiles") {
            let ghost chs = node.deep().children;
            let ghost res0 = old(res).spec_res();
            let n = node.children.len();
            let mut sources: Vec<Operation> = Vec::new();
            let mut i: usize = 0;
            proof {
                assert(chs.len() == n);
                assert(models_of(sources@) =~= Seq::<OpModel>::empty());
                if spec_build_children(chs, 0, res.spec_res()) is Ok {
                    let (ms, rf) = spec_build_children(chs, 0, res.spec_res()).unwrap();
                    assert(models_of(sources@) + ms =~= ms);
                }
            }
            while i < n
                invariant
                    i <= n,
                    n == node.children@.len(),
                    chs == node.deep().children,
                    chs.len() == n,
                    res0 == old(res).spec_res(),
                    node.name@ == "overlay_tiles"@,
                    node.deep().name == "overlay_tiles"@,
                    node.deep().name != "read"@,
                    res.wf(),
                    sources@.len() == i,
                    forall|k: int| 0 <= k < sources@.len() ==> (#[trigger] sources@[k]).wf(),
                    spec_build_children(chs, 0, res0) == (match spec_build_children(
                        chs,
                        i as int,
                        res.spec_res(),
                    ) {
                        Err(e) => Err::<(Seq<OpModel>, ResourcesV), ConfigError>(e),
                        Ok((ms, rf)) => Ok((models_of(sources@) + ms, rf)),
                    }),
                decreases n - i,
            {
                let ghost pre_res = res.spec_res();
                proof {
                    assert(chs[i as int] == node.children@[i as int].deep());
                }
                let built = Self::build_pipeline(&node.children[i], res);
                let op = match built {
                    Ok(op) => op,
                    Err(e) => {
                        proof {
                            assert(spec_build_children(chs, i as int, pre_res) == Err::<
                                (Seq<OpModel>, ResourcesV),
                                ConfigError,
                            >(e));
                        }
                        return Err(e);
                    },
                };
                let ghost m = op.model();
                proof {
                    assert(models_of(sources@.push(op)) =~= models_of(sources@).push(m));
                    if spec_build_children(chs, i + 1, res.spec_res()) is Ok {
                        let (ms, rf) = spec_build_children(chs, i + 1, res.spec_res()).unwrap();
                        assert(models_of(sources@) + (seq![m] + ms) =~= models_of(
                            sources@,
                        ).push(m) + ms);
                    }
                }
                sources.push(op);
                i = i + 1;
            }
            proof {
                lemma_all_wf_sources(sources, 0);
                assert(models_of(sources@) + Seq::<OpModel>::empty() =~= models_of(sources@));
                assert(spec_build_children(chs, 0, res0) == Ok::<
                    (Seq<OpModel>, ResourcesV),
                    ConfigError,
                >((models_of(sources@), res.spec_res())));
            }
            let built = Operation::new_overlay(sources);
            match built {
                Err(e) => {
                    proof {
                        let ms = models_of(sources@);
                        assert forall|k: int|
                            0 <= k < ms.len() implies model_params(#[trigger] ms[k]) == (
                            sources@[k].spec_params().spec_format(),
                            sources@[k].spec_params().spec_compression(),
                            sources@[k].spec_params().spec_pyramid()@,
                        ) by {
                            crate::pipeline::operation::lemma_model_params(sources@[k]);
                        }
                        if sources@.len() == 0 {
                            assert(ms.len() == 0);
                        } else if exists|k: int|
                            0 <= k < sources@.len() && (#[trigger] sources@[
                                k
                            ]).spec_params().spec_format()
                                != sources@[0].spec_params().spec_format() {
                            let k = choose|k: int|
                                0 <= k < sources@.len() && (#[trigger] sources@[
                                    k
                                ]).spec_params().spec_format()
                                    != sources@[0].spec_params().spec_format();
                            assert(model_params(ms[k]).0 != model_params(ms[0]).0);
                        } else {
                            assert(forall|k: int|
                                0 <= k < sources@.len() ==> (#[trigger] sources@[
                                    k
                                ]).spec_params().spec_format()
                                    == sources@[0].spec_params().spec_format());
                            assert(false);
                        }
                    }
                    Err(e)
                },
                Ok(op) => {
                    proof {
                        let ms = models_of(sources@);
                        assert forall|k: int|
                            0 <= k < ms.len() implies model_params(#[trigger] ms[k]) == (
                            sources@[k].spec_params().spec_format(),
                            sources@[k].spec_params().spec_compression(),
                            sources@[k].spec_params().spec_pyramid()@,
                        ) by {
                            crate::pipeline::operation::lemma_model_params(sources@[k]);
                        }
                        assert(sources@.len() > 0);
                        assert(forall|k: int|
                            0 <= k < sources@.len()
                                ==> (#[trigger] sources@[k]).spec_params().spec_format()
                                == sources@[0].spec_params().spec_format());
                        assert(!(exists|k: int|
                            0 <= k < ms.len() && model_params(#[trigger] ms[k]).0 != model_params(
                                ms[0],
                            ).0));
                        let spec = spec_assemble_overlay(ms, res.spec_res());
                        assert(spec is Ok);
                        let want = spec.unwrap().0;
                        assert(op.model() is Overlay);
                        let got = op.model()->Overlay_0;
                        assert(got.sources =~= ms);
                        assert(got.format == model_params(ms[0]).0);
                        if crate::pipeline::operation::spec_all_same_compression(sources@) {
                            assert forall|k: int|
                                0 <= k < ms.len() implies model_params(#[trigger] ms[k]).1
                                == model_params(ms[0]).1 by {
                                assert(sources@[k].spec_params().spec_compression()
                                    == sources@[0].spec_params().spec_compression());
                            }
                        } else {
                            let k = choose|k: int|
                                0 <= k < sources@.len() && (#[trigger] sources@[
                                    k
                                ]).spec_params().spec_compression()
                                    != sources@[0].spec_params().spec_compression();
                            assert(model_params(ms[k]).1 != model_params(ms[0]).1);
                        }
                        assert(got.compression == want->Overlay_0.compression);
                        assert(got.pyramid.len() == 33);
                        assert forall|lv: int| 0 <= lv < 33 implies #[trigger] got.pyramid[lv]
                            == spec_pyr_hull_m(ms, ms.len() - 1, lv) by {
                            lemma_pyr_hull_models(sources@, sources@.len() - 1, lv);
                        }
                        assert(got.pyramid =~= want->Overlay_0.pyramid);
                        assert(got == want->Overlay_0);
                        let r2 = spec.unwrap().1;
                        assert(res.spec_res() == r2);
                    }
                    Ok(op)
                },
            }
        } else {
            Err(ConfigError::UnknownOperation)
        }
    }

    /// Builds the transform a non-leading node names, over the operation
    /// built so far: exactly what the specification builder makes of the
    /// node against the source's model and the resources.
    pub fn build_transform_operation(
        node: &VDLNode,
        source: Operation,
        res: &mut PipelineResources,
    ) -> (r: Result<Operation, ConfigError>)
        requires
            old(res).wf(),
            source.wf(),
        ensures
            final(res).wf(),
            match spec_build_transform(node.deep(), source.model(), old(res).spec_res()) {
                Err(e) => r == Err::<Operation, ConfigError>(e),
                Ok((m, r2)) => (r matches Ok(op) && op.wf() && op.model() == m
                    && final(res).spec_res() == r2),
            },
    {
        proof {
            assert(node.deep().properties =~= crate::vdl::parser::props_deep(node.properties@));
            crate::pipeline::operation::lemma_model_params(source);
            crate::pipeline::operation::lemma_model_meta(source);
        }
        if !node_name_is(node, "vectortiles_update_properties") {
            return Err(ConfigError::UnknownOperation);
        }
        if node.children.len() > 0 {
            return Err(ConfigError::UnknownOperation);
        }
        let data_source_path = match get_property(node, "data_source_path") {
            Some(v) => v,
            None => {
                return Err(ConfigError::MissingProperty);
            },
        };
        let id_field_tiles = match get_property(node, "id_field_tiles") {
            Some(v) => v,
            None => {
                return Err(ConfigError::MissingProperty);
            },
        };
        let id_field_values = match get_property(node, "id_field_values") {
            Some(v) => v,
            None => {
                return Err(ConfigError::MissingProperty);
            },
        };
        let layer_name = get_property(node, "layer_name");
        let replace_properties = get_bool_property(node, "replace_properties")?;
        let remove_empty_properties = get_bool_property(node, "remove_empty_properties")?;
        let add_id = get_bool_property(node, "add_id")?;
        let rows = match res.take_table(&data_source_path) {
            Some(t) => t,
            None => {
                return Err(ConfigError::UnknownTable);
            },
        };
        let args = Args {
            data_source_path,
            id_field_tiles,
            id_field_values,
            layer_name,
            replace_properties,
            remove_empty_properties,
            add_id,
        };
        let built = Operation::new_update_properties(args, rows, source);
        match built {
            Err(e) => Err(e),
            Ok(op) => {
                proof {
                    let spec = spec_build_transform(
                        node.deep(),
                        source.model(),
                        old(res).spec_res(),
                    );
                    let m = spec.unwrap().0;
                    assert(op.model() == m) by {
                        assert(op.model() is UpdateProperties);
                        let got = op.model()->UpdateProperties_0;
                        let want = m->UpdateProperties_0;
                        crate::pipeline::operation::lemma_model_meta(op);
                        assert(got.layer_name == want.layer_name) by {
                            match op->UpdateProperties_0.runner.args.layer_name {
                                Some(v) => {},
                                None => {},
                            }
                        }
                        assert(got == want);
                    }
                }
                Ok(op)
            },
        }
    }

    /// Builds a whole pipeline — the left-most node reads, the rest
    /// transform what stands before them: exactly what the specification
    /// builder makes of the pipeline against the resources.
    pub fn build_pipeline(pipe: &VDLPipeline, res: &mut PipelineResources) -> (r: Result<
        Operation,
        ConfigError,
    >)
        requires
            old(res).wf(),
        ensures
            final(res).wf(),
            match spec_build_pipeline(pipe.deep(), old(res).spec_res()) {
                Err(e) => r == Err::<Operation, ConfigError>(e),
                Ok((m, r2)) => (r matches Ok(op) && op.wf() && op.model() == m
                    && final(res).spec_res() == r2),
            },
        decreases *pipe, 1int,
    {
        let ghost pd = pipe.deep();
        let ghost res0 = old(res).spec_res();
        let n = pipe.pipeline.len();
        proof {
            assert(pd.pipeline.len() == n);
        }
        if n == 0 {
            return Err(ConfigError::EmptyPipeline);
        }
        proof {
            assert(pd.pipeline[0] == pipe.pipeline@[0].deep());
        }
        let head = Self::build_read_operation(&pipe.pipeline[0], res);
        let mut op = match head {
            Ok(op) => op,
            Err(e) => {
                return Err(e);
            },
        };
        let mut i: usize = 1;
        while i < n
            invariant
                1 <= i <= n,
                n == pipe.pipeline@.len(),
                pd == pipe.deep(),
                pd.pipeline.len() == n,
                res0 == old(res).spec_res(),
                res.wf(),
                op.wf(),
                spec_build_pipeline(pd, res0) == spec_build_transforms(
                    pd.pipeline,
                    i as int,
                    op.model(),
                    res.spec_res(),
                ),
            decreases n - i,
        {
            let ghost pre_res = res.spec_res();
            let ghost pre_model = op.model();
            proof {
                assert(pd.pipeline[i as int] == pipe.pipeline@[i as int].deep());
            }
            let step = Self::build_transform_operation(&pipe.pipeline[i], op, res);
            op = match step {
                Ok(op2) => op2,
                Err(e) => {
                    proof {
                        assert(spec_build_transforms(pd.pipeline, i as int, pre_model, pre_res)
                            == Err::<(OpModel, ResourcesV), ConfigError>(e));
                    }
                    return Err(e);
                },
            };
            i = i + 1;
        }
        Ok(op)
    }
}

/// The per-level hull over built sources equals the hull over their
/// models.
proof fn lemma_pyr_hull_models(v: Seq<Operation>, k: int, lv: int)
    requires
        forall|j: int| 0 <= j < v.len() ==> (#[trigger] v[j]).wf(),
        0 <= k < v.len(),
    ensures
        crate::pipeline::operation::spec_pyr_hull(v, k, lv) == spec_pyr_hull_m(
            models_of(v),
            k,
            lv,
        ),
    decreases k,
{
    crate::pipeline::operation::lemma_model_params(v[k]);
    if k > 0 {
        lemma_pyr_hull_models(v, k - 1, lv);
    } else {
        crate::pipeline::operation::lemma_model_params(v[0]);
    }
}

/// A list whose members are each valid is valid as an overlay source list.
proof fn lemma_all_wf_sources(v: Vec<Operation>, i: int)
    requires
        forall|k: int| 0 <= k < v@.len() ==> (#[trigger] v@[k]).wf(),
        0 <= i,
    ensures
        crate::pipeline::operation::sources_wf(v, i),
    decreases v@.len() - i,
{
    if i < v@.len() {
        lemma_all_wf_sources(v, i + 1);
    }
}

} // verus!
