//! The pipeline-language parser: recursive descent over characters, proved
//! to return exactly what the grammar in [`crate::vdl::grammar`] describes.

use vstd::prelude::*;

use crate::vdl::ast::prop_view;
use crate::vdl::ast::VDLNode;
use crate::vdl::ast::VDLNodeView;
use crate::vdl::ast::VDLPipeline;
use crate::vdl::ast::VDLPipelineView;
use crate::vdl::grammar::a_tail;
use crate::vdl::grammar::add_prop;
use crate::vdl::grammar::c_tail;
use crate::vdl::grammar::esc_of;
use crate::vdl::grammar::is_ident_char;
use crate::vdl::grammar::is_ident_start;
use crate::vdl::grammar::is_value_char;
use crate::vdl::grammar::is_ws;
use crate::vdl::grammar::merge_into;
use crate::vdl::grammar::merge_props;
use crate::vdl::grammar::p_array;
use crate::vdl::grammar::p_bare_ident;
use crate::vdl::grammar::p_children;
use crate::vdl::grammar::p_child_pipes;
use crate::vdl::grammar::p_ident;
use crate::vdl::grammar::p_item;
use crate::vdl::grammar::p_node;
use crate::vdl::grammar::p_pipeline;
use crate::vdl::grammar::p_prop;
use crate::vdl::grammar::p_props;
use crate::vdl::grammar::p_quoted;
use crate::vdl::grammar::p_unquoted;
use crate::vdl::grammar::p_value;
use crate::vdl::grammar::pipe_tail;
use crate::vdl::grammar::props_tail;
use crate::vdl::grammar::qstr;
use crate::vdl::grammar::scan_ident;
use crate::vdl::grammar::scan_value;
use crate::vdl::grammar::scan_ws;
use crate::vdl::grammar::vdl_parse;

verus! {

/// A document was rejected: it is not a well-formed pipeline, or input
/// remains after the final pipeline.
#[derive(Clone, Copy, Debug, PartialEq, Eq, Structural)]
pub struct ParseError {
    /// Best-effort position of the offending input.
    pub pos: usize,
}

/// The views of a list of strings.
pub open spec fn strs_deep(v: Seq<String>) -> Seq<Seq<char>> {
    Seq::new(v.len(), |i: int| v[i]@)
}

/// The views of a list of parsed properties.
pub open spec fn props_deep(v: Seq<(String, Vec<String>)>) -> Seq<(Seq<char>, Seq<Seq<char>>)> {
    Seq::new(v.len(), |i: int| prop_view(v[i]))
}

fn is_ws_e(c: char) -> (r: bool)
    ensures
        r == is_ws(c),
{
    c == ' ' || c == '\t' || c == '\n' || c == '\r'
}

fn is_ident_char_e(c: char) -> (r: bool)
    ensures
        r == is_ident_char(c),
{
    let u = c as u32;
    (48 <= u && u <= 57) || (65 <= u && u <= 90) || (97 <= u && u <= 122) || c == '_' || c == '-'
}

fn is_ident_start_e(c: char) -> (r: bool)
    ensures
        r == is_ident_start(c),
{
    let u = c as u32;
    is_ident_char_e(c) && !(48 <= u && u <= 57)
}

fn is_value_char_e(c: char) -> (r: bool)
    ensures
        r == is_value_char(c),
{
    let u = c as u32;
    (48 <= u && u <= 57) || (65 <= u && u <= 90) || (97 <= u && u <= 122) || c == '.' || c == '-'
        || c == '_'
}

fn esc_e(c: char) -> (r: Option<char>)
    ensures
        r == esc_of(c),
{
    if c == '\\' {
        Some('\\')
    } else if c == '"' {
        Some('"')
    } else if c == 'n' {
        Some('\n')
    } else if c == 't' {
        Some('\t')
    } else {
        None
    }
}

/// Skips whitespace.
fn skip_ws(s: &str, pos: usize) -> (r: usize)
    requires
        pos <= s@.len(),
    ensures
        r == scan_ws(s@, pos as int),
        pos <= r <= s@.len(),
{
    let len = s.unicode_len();
    let mut p = pos;
    while p < len && is_ws_e(s.get_char(p))
        invariant
            pos <= p <= len,
            len == s@.len(),
            scan_ws(s@, pos as int) == scan_ws(s@, p as int),
        decreases len - p,
    {
        p = p + 1;
    }
    p
}

/// Reads the rest of a quoted string after its opening quote.
fn qstr_at(s: &str, pos: usize) -> (r: Option<(usize, String)>)
    requires
        pos <= s@.len(),
    ensures
        r matches Some((e, v)) ==> qstr(s@, pos as int) == Some((e as int, v@)) && pos < e
            <= s@.len(),
        r is None ==> qstr(s@, pos as int) is None,
{
    let len = s.unicode_len();
    let mut p = pos;
    let mut out: Vec<char> = Vec::new();
    loop
        invariant
            pos <= p <= len,
            len == s@.len(),
            forall|e: int, tail: Seq<char>|
                qstr(s@, p as int) == Some((e, tail)) ==> qstr(s@, pos as int) == Some(
                    (e, out@ + tail),
                ),
            qstr(s@, p as int) is None ==> qstr(s@, pos as int) is None,
        decreases len - p,
    {
        if p >= len {
            return None;
        }
        let c = s.get_char(p);
        if c == '"' {
            proof {
                assert(qstr(s@, p as int) == Some((p + 1 as int, Seq::<char>::empty())));
                assert(out@ + Seq::<char>::empty() =~= out@);
            }
            return Some(((p + 1) as usize, crate::utils::strings::string_of_chars(&out)));
        } else if c == '\\' {
            if p + 1 >= len {
                return None;
            }
            let e = esc_e(s.get_char(p + 1));
            match e {
                Some(ec) => {
                    proof {
                        assert forall|e2: int, tail: Seq<char>|
                            qstr(s@, p + 2 as int) == Some((e2, tail)) implies qstr(
                            s@,
                            pos as int,
                        ) == Some((e2, out@.push(ec) + tail)) by {
                            assert(qstr(s@, p as int) == Some((e2, seq![ec] + tail)));
                            assert(out@ + (seq![ec] + tail) =~= out@.push(ec) + tail);
                        }
                    }
                    out.push(ec);
                    p = p + 2;
                },
                None => {
                    return None;
                },
            }
        } else {
            proof {
                assert forall|e2: int, tail: Seq<char>|
                    qstr(s@, p + 1 as int) == Some((e2, tail)) implies qstr(s@, pos as int) == Some(
                    (e2, out@.push(c) + tail),
                ) by {
                    assert(qstr(s@, p as int) == Some((e2, seq![c] + tail)));
                    assert(out@ + (seq![c] + tail) =~= out@.push(c) + tail);
                }
            }
            out.push(c);
            p = p + 1;
        }
    }
}

/// Parses a quoted string.
fn p_quoted_at(s: &str, pos: usize) -> (r: Option<(usize, String)>)
    requires
        pos <= s@.len(),
    ensures
        r matches Some((e, v)) ==> p_quoted(s@, pos as int) == Some((e as int, v@)) && pos < e
            <= s@.len(),
        r is None ==> p_quoted(s@, pos as int) is None,
{
    let len = s.unicode_len();
    if pos < len && s.get_char(pos) == '"' {
        qstr_at(s, pos + 1)
    } else {
        None
    }
}

/// Parses a bare identifier.
fn p_bare_ident_at(s: &str, pos: usize) -> (r: Option<(usize, String)>)
    requires
        pos <= s@.len(),
    ensures
        r matches Some((e, v)) ==> p_bare_ident(s@, pos as int) == Some((e as int, v@)) && pos < e
            <= s@.len(),
        r is None ==> p_bare_ident(s@, pos as int) is None,
{
    let len = s.unicode_len();
    if pos < len && is_ident_start_e(s.get_char(pos)) {
        let mut p = pos + 1;
        while p < len && is_ident_char_e(s.get_char(p))
            invariant
                pos < p <= len,
                len == s@.len(),
                scan_ident(s@, pos as int) == scan_ident(s@, p as int),
            decreases len - p,
        {
            p = p + 1;
        }
        Some((p, s.substring_char(pos, p).to_owned()))
    } else {
        None
    }
}

/// Parses a bare value.
fn p_unquoted_at(s: &str, pos: usize) -> (r: Option<(usize, String)>)
    requires
        pos <= s@.len(),
    ensures
        r matches Some((e, v)) ==> p_unquoted(s@, pos as int) == Some((e as int, v@)) && pos < e
            <= s@.len(),
        r is None ==> p_unquoted(s@, pos as int) is None,
{
    let len = s.unicode_len();
    if pos < len && is_value_char_e(s.get_char(pos)) {
        let mut p = pos + 1;
        while p < len && is_value_char_e(s.get_char(p))
            invariant
                pos < p <= len,
                len == s@.len(),
                scan_value(s@, pos as int) == scan_value(s@, p as int),
            decreases len - p,
        {
            p = p + 1;
        }
        Some((p, s.substring_char(pos, p).to_owned()))
    } else {
        None
    }
}

/// Parses an identifier: quoted or bare.
fn p_ident_at(s: &str, pos: usize) -> (r: Option<(usize, String)>)
    requires
        pos <= s@.len(),
    ensures
        r matches Some((e, v)) ==> p_ident(s@, pos as int) == Some((e as int, v@)) && pos < e
            <= s@.len(),
        r is None ==> p_ident(s@, pos as int) is None,
{
    match p_quoted_at(s, pos) {
        Some(r) => Some(r),
        None => p_bare_ident_at(s, pos),
    }
}

/// Parses one array item: quoted or bare.
fn p_item_at(s: &str, pos: usize) -> (r: Option<(usize, String)>)
    requires
        pos <= s@.len(),
    ensures
        r matches Some((e, v)) ==> p_item(s@, pos as int) == Some((e as int, v@)) && pos < e
            <= s@.len(),
        r is None ==> p_item(s@, pos as int) is None,
{
    match p_quoted_at(s, pos) {
        Some(r) => Some(r),
        None => p_unquoted_at(s, pos),
    }
}

/// Parses a bracketed list of values.
fn p_array_at(s: &str, pos: usize) -> (r: Option<(usize, Vec<String>)>)
    requires
        pos <= s@.len(),
    ensures
        r matches Some((e, v)) ==> p_array(s@, pos as int) == Some((e as int, strs_deep(v@)))
            && pos < e <= s@.len(),
        r is None ==> p_array(s@, pos as int) is None,
{
    let len = s.unicode_len();
    if !(pos < len && s.get_char(pos) == '[') {
        return None;
    }
    let p0 = skip_ws(s, pos + 1);
    match p_item_at(s, p0) {
        None => {
            if p0 < len && s.get_char(p0) == ']' {
                let acc: Vec<String> = Vec::new();
                proof {
                    assert(strs_deep(acc@) =~= Seq::<Seq<char>>::empty());
                }
                Some((p0 + 1, acc))
            } else {
                None
            }
        },
        Some((p1, v)) => {
            let mut acc: Vec<String> = Vec::new();
            acc.push(v);
            let mut p = p1;
            proof {
                assert(strs_deep(acc@) =~= seq![acc@[0]@]);
            }
            loop
                invariant
                    pos < p <= len,
                    len == s@.len(),
                    p_array(s@, pos as int) == a_tail(s@, p as int, strs_deep(acc@)),
                decreases len - p,
            {
                let q1 = skip_ws(s, p);
                if q1 < len && s.get_char(q1) == ',' {
                    let q2 = skip_ws(s, q1 + 1);
                    match p_item_at(s, q2) {
                        Some((q3, item)) => {
                            proof {
                                assert(strs_deep(acc@.push(item)) =~= strs_deep(acc@).push(
                                    item@,
                                ));
                            }
                            acc.push(item);
                            p = q3;
                        },
                        None => {
                            let pe = skip_ws(s, p);
                            if pe < len && s.get_char(pe) == ']' {
                                return Some((pe + 1, acc));
                            } else {
                                return None;
                            }
                        },
                    }
                } else {
                    let pe = skip_ws(s, p);
                    if pe < len && s.get_char(pe) == ']' {
                        return Some((pe + 1, acc));
                    } else {
                        return None;
                    }
                }
            }
        },
    }
}

/// Parses a property's value: one item, or an array of them.
fn p_value_at(s: &str, pos: usize) -> (r: Option<(usize, Vec<String>)>)
    requires
        pos <= s@.len(),
    ensures
        r matches Some((e, v)) ==> p_value(s@, pos as int) == Some((e as int, strs_deep(v@)))
            && pos < e <= s@.len(),
        r is None ==> p_value(s@, pos as int) is None,
{
    match p_item_at(s, pos) {
        Some((e, v)) => {
            let mut acc: Vec<String> = Vec::new();
            acc.push(v);
            proof {
                assert(strs_deep(acc@) =~= seq![acc@[0]@]);
            }
            Some((e, acc))
        },
        None => p_array_at(s, pos),
    }
}

/// Parses one `key=value` property.
fn p_prop_at(s: &str, pos: usize) -> (r: Option<(usize, (String, Vec<String>))>)
    requires
        pos <= s@.len(),
    ensures
        r matches Some((e, kv)) ==> p_prop(s@, pos as int) == Some(
            (e as int, (kv.0@, strs_deep(kv.1@))),
        ) && pos < e <= s@.len(),
        r is None ==> p_prop(s@, pos as int) is None,
{
    let len = s.unicode_len();
    match p_ident_at(s, pos) {
        Some((p1, key)) => {
            let p2 = skip_ws(s, p1);
            if p2 < len && s.get_char(p2) == '=' {
                let p3 = skip_ws(s, p2 + 1);
                match p_value_at(s, p3) {
                    Some((end, vals)) => Some((end, (key, vals))),
                    None => None,
                }
            } else {
                None
            }
        },
        None => None,
    }
}

/// Parses a node's property list, possibly empty; never fails.
fn p_props_at(s: &str, pos: usize) -> (r: (usize, Vec<(String, Vec<String>)>))
    requires
        pos <= s@.len(),
    ensures
        p_props(s@, pos as int) == (r.0 as int, props_deep(r.1@)),
        pos <= r.0 <= s@.len(),
{
    let len = s.unicode_len();
    match p_prop_at(s, pos) {
        None => {
            let acc: Vec<(String, Vec<String>)> = Vec::new();
            proof {
                assert(props_deep(acc@) =~= Seq::<(Seq<char>, Seq<Seq<char>>)>::empty());
            }
            (pos, acc)
        },
        Some((p1, kv)) => {
            let mut acc: Vec<(String, Vec<String>)> = Vec::new();
            let ghost kv_view = (kv.0@, strs_deep(kv.1@));
            acc.push(kv);
            let mut p = p1;
            proof {
                assert(props_deep(acc@) =~= seq![kv_view]);
            }
            loop
                invariant
                    pos < p <= len,
                    len == s@.len(),
                    p_props(s@, pos as int) == props_tail(s@, p as int, props_deep(acc@)),
                decreases len - p,
            {
                let q1 = skip_ws(s, p);
                if q1 > p {
                    match p_prop_at(s, q1) {
                        Some((q2, kv2)) => {
                            let ghost kv2_view = (kv2.0@, strs_deep(kv2.1@));
                            proof {
                                assert(props_deep(acc@.push(kv2)) =~= props_deep(acc@).push(
                                    kv2_view,
                                ));
                            }
                            acc.push(kv2);
                            p = q2;
                        },
                        None => {
                            return (p, acc);
                        },
                    }
                } else {
                    return (p, acc);
                }
            }
        },
    }
}

proof fn lemma_add_prop_found(
    acc: Seq<(Seq<char>, Seq<Seq<char>>)>,
    key: Seq<char>,
    vals: Seq<Seq<char>>,
    i: int,
)
    requires
        0 <= i < acc.len(),
        acc[i].0 == key,
        forall|j: int| 0 <= j < i ==> acc[j].0 != key,
    ensures
        add_prop(acc, key, vals) == acc.update(i, (acc[i].0, acc[i].1 + vals)),
    decreases i,
{
    let sub = acc.subrange(1, acc.len() as int);
    if i == 0 {
        assert(add_prop(acc, key, vals) =~= acc.update(0, (acc[0].0, acc[0].1 + vals)));
    } else {
        lemma_add_prop_found(sub, key, vals, i - 1);
        assert(seq![acc[0]] + sub.update(i - 1, (sub[i - 1].0, sub[i - 1].1 + vals)) =~= acc.update(
            i,
            (acc[i].0, acc[i].1 + vals),
        ));
    }
}

proof fn lemma_add_prop_missing(
    acc: Seq<(Seq<char>, Seq<Seq<char>>)>,
    key: Seq<char>,
    vals: Seq<Seq<char>>,
)
    requires
        forall|j: int| 0 <= j < acc.len() ==> acc[j].0 != key,
    ensures
        add_prop(acc, key, vals) == acc.push((key, vals)),
    decreases acc.len(),
{
    if acc.len() == 0 {
        assert(add_prop(acc, key, vals) =~= acc.push((key, vals)));
    } else {
        let sub = acc.subrange(1, acc.len() as int);
        lemma_add_prop_missing(sub, key, vals);
        assert(seq![acc[0]] + sub.push((key, vals)) =~= acc.push((key, vals)));
    }
}

/// Adds one parsed property to the ordered property list, appending the
/// values when the key is already present.
fn merge_push(props: &mut Vec<(String, Vec<String>)>, key: String, vals: Vec<String>)
    ensures
        props_deep(final(props)@) == add_prop(props_deep(old(props)@), key@, strs_deep(vals@)),
{
    let ghost orig = props_deep(props@);
    let n = props.len();
    let mut i: usize = 0;
    while i < n
        invariant
            i <= n,
            n == props@.len(),
            props@ == old(props)@,
            orig == props_deep(props@),
            forall|j: int| 0 <= j < i ==> #[trigger] props@[j].0@ != key@,
        decreases n - i,
    {
        if props[i].0 == key {
            let (k, mut entry_vals) = props.remove(i);
            let ghost entry_vals0 = entry_vals@;
            let mut m: usize = 0;
            while m < vals.len()
                invariant
                    m <= vals@.len(),
                    strs_deep(entry_vals@) =~= strs_deep(entry_vals0) + strs_deep(
                        vals@,
                    ).subrange(0, m as int),
                decreases vals@.len() - m,
            {
                proof {
                    assert(strs_deep(entry_vals@.push(vals@[m as int])) =~= strs_deep(
                        entry_vals@,
                    ).push(vals@[m as int]@));
                    assert(strs_deep(vals@).subrange(0, m + 1int) =~= strs_deep(vals@).subrange(
                        0,
                        m as int,
                    ).push(vals@[m as int]@));
                }
                entry_vals.push(vals[m].clone());
                m = m + 1;
            }
            proof {
                assert(strs_deep(vals@).subrange(0, vals@.len() as int) =~= strs_deep(vals@));
            }
            props.insert(i, (k, entry_vals));
            proof {
                lemma_add_prop_found(orig, key@, strs_deep(vals@), i as int);
                assert(props_deep(props@) =~~= orig.update(
                    i as int,
                    (orig[i as int].0, orig[i as int].1 + strs_deep(vals@)),
                ));
            }
            return ;
        }
        i = i + 1;
    }
    props.push((key, vals));
    proof {
        lemma_add_prop_missing(orig, key@, strs_deep(vals@));
        assert(props_deep(props@) =~~= orig.push((key@, strs_deep(vals@))));
    }
}

/// Folds a raw parsed property list into the ordered property map.
fn merge_all(raw: Vec<(String, Vec<String>)>) -> (r: Vec<(String, Vec<String>)>)
    ensures
        props_deep(r@) == merge_props(props_deep(raw@)),
{
    let mut rest = raw;
    let mut merged: Vec<(String, Vec<String>)> = Vec::new();
    proof {
        assert(props_deep(merged@) =~= Seq::<(Seq<char>, Seq<Seq<char>>)>::empty());
    }
    while rest.len() > 0
        invariant
            merge_into(props_deep(merged@), props_deep(rest@)) == merge_props(props_deep(raw@)),
        decreases rest@.len(),
    {
        let ghost rest0 = props_deep(rest@);
        let (k, v) = rest.remove(0);
        let ghost kv = (k@, strs_deep(v@));
        proof {
            assert(rest0[0] == kv);
            assert(props_deep(rest@) =~~= rest0.subrange(1, rest0.len() as int));
        }
        merge_push(&mut merged, k, v);
    }
    merged
}

/// The views of a list of parsed nodes.
pub open spec fn nodes_deep(v: Seq<VDLNode>) -> Seq<VDLNodeView> {
    Seq::new(v.len(), |i: int| v[i].deep())
}

/// The views of a list of parsed child pipelines.
pub open spec fn kids_deep(v: Seq<VDLPipeline>) -> Seq<VDLPipelineView> {
    Seq::new(v.len(), |i: int| v[i].deep())
}

/// Parses one node.
fn p_node_at(s: &str, pos: usize) -> (r: Option<(usize, VDLNode)>)
    requires
        pos <= s@.len(),
    ensures
        r matches Some((e, n)) ==> p_node(s@, pos as int) == Some((e as int, n.deep())) && pos < e
            <= s@.len(),
        r is None ==> p_node(s@, pos as int) is None,
    decreases s@.len() - pos, 2int,
{
    let p0 = skip_ws(s, pos);
    match p_ident_at(s, p0) {
        None => None,
        Some((p1, name)) => {
            let p2 = skip_ws(s, p1);
            let (p3, raw) = p_props_at(s, p2);
            let p4 = skip_ws(s, p3);
            let (p5, kids) = p_children_at(s, p4);
            let p6 = skip_ws(s, p5);
            let ghost name_view = name@;
            let ghost raw_deep = props_deep(raw@);
            let ghost kids_view = kids_deep(kids@);
            let merged = merge_all(raw);
            let node = VDLNode { name, properties: merged, children: kids };
            proof {
                assert(node.deep().properties =~= merge_props(raw_deep));
                assert(node.deep().children =~= kids_view);
                assert(node.deep() == (VDLNodeView {
                    name: name_view,
                    properties: merge_props(raw_deep),
                    children: kids_view,
                }));
            }
            Some((p6, node))
        },
    }
}

/// Parses a node's optional children; consumes nothing when no
/// well-formed bracketed list follows.
fn p_children_at(s: &str, pos: usize) -> (r: (usize, Vec<VDLPipeline>))
    requires
        pos <= s@.len(),
    ensures
        p_children(s@, pos as int) == Some((r.0 as int, kids_deep(r.1@))),
        pos <= r.0 <= s@.len(),
    decreases s@.len() - pos, 1int,
{
    let len = s.unicode_len();
    if !(pos < len && s.get_char(pos) == '[') {
        let kids: Vec<VDLPipeline> = Vec::new();
        proof {
            assert(kids_deep(kids@) =~= Seq::<VDLPipelineView>::empty());
        }
        return (pos, kids);
    }
    let first = match p_node_at(s, pos + 1) {
        Some(v) => v,
        None => {
            let kids: Vec<VDLPipeline> = Vec::new();
            proof {
                assert(kids_deep(kids@) =~= Seq::<VDLPipelineView>::empty());
            }
            return (pos, kids);
        },
    };
    let (q1, n1) = first;
    let mut kids: Vec<VDLPipeline> = Vec::new();
    let ghost n1_view = n1.deep();
    let pipe1 = VDLPipeline { pipeline: vec![n1] };
    proof {
        assert(pipe1.deep().pipeline =~= seq![n1_view]);
        assert(pipe1.deep() == (VDLPipelineView { pipeline: seq![n1_view] }));
    }
    kids.push(pipe1);
    let mut p = q1;
    proof {
        assert(kids_deep(kids@) =~= seq![VDLPipelineView { pipeline: seq![n1_view] }]);
    }
    loop
        invariant
            pos < p <= len,
            pos < len,
            len == s@.len(),
            s@[pos as int] == '[',
            p_child_pipes(s@, pos + 1 as int) == c_tail(s@, p as int, kids_deep(kids@)),
        ensures
            pos < p <= len,
            p_child_pipes(s@, pos + 1 as int) == Some((p as int, kids_deep(kids@))),
        decreases len - p,
    {
        if p < len && (s.get_char(p) == ',' || s.get_char(p) == '|') {
            match p_node_at(s, p + 1) {
                Some((q2, n2)) => {
                    let ghost n2_view = n2.deep();
                    let pipe2 = VDLPipeline { pipeline: vec![n2] };
                    proof {
                        assert(pipe2.deep().pipeline =~= seq![n2_view]);
                        assert(pipe2.deep() == (VDLPipelineView { pipeline: seq![n2_view] }));
                        assert(kids_deep(kids@.push(pipe2)) =~= kids_deep(kids@).push(
                            VDLPipelineView { pipeline: seq![n2_view] },
                        ));
                    }
                    kids.push(pipe2);
                    p = q2;
                },
                None => {
                    break ;
                },
            }
        } else {
            break ;
        }
    }
    if p < len && s.get_char(p) == ']' {
        (p + 1, kids)
    } else {
        let empty_kids: Vec<VDLPipeline> = Vec::new();
        proof {
            assert(kids_deep(empty_kids@) =~= Seq::<VDLPipelineView>::empty());
        }
        (pos, empty_kids)
    }
}

/// Parses a pipeline: possibly no nodes at all, consuming only
/// whitespace then.
fn p_pipeline_at(s: &str, pos: usize) -> (r: (usize, VDLPipeline))
    requires
        pos <= s@.len(),
    ensures
        p_pipeline(s@, pos as int) == Some((r.0 as int, r.1.deep())),
        pos <= r.0 <= s@.len(),
    decreases s@.len() - pos, 3int,
{
    let len = s.unicode_len();
    match p_node_at(s, pos) {
        None => {
            let pe = skip_ws(s, pos);
            let empty_pipe = VDLPipeline { pipeline: Vec::new() };
            proof {
                assert(empty_pipe.deep().pipeline =~= Seq::<VDLNodeView>::empty());
                assert(empty_pipe.deep() == (VDLPipelineView { pipeline: Seq::empty() }));
            }
            (pe, empty_pipe)
        },
        Some((p1, node)) => {
            let mut nodes: Vec<VDLNode> = Vec::new();
            let ghost node_view = node.deep();
            nodes.push(node);
            let mut p = p1;
            proof {
                assert(nodes_deep(nodes@) =~= seq![node_view]);
            }
            loop
                invariant
                    pos < p <= len,
                    len == s@.len(),
                    p_pipeline(s@, pos as int) == (match pipe_tail(
                        s@,
                        p as int,
                        nodes_deep(nodes@),
                    ) {
                        Some((pe, ns)) => Some((pe, VDLPipelineView { pipeline: ns })),
                        None => None,
                    }),
                ensures
                    pos < p <= len,
                    p_pipeline(s@, pos as int) == Some(
                        (p as int, VDLPipelineView { pipeline: nodes_deep(nodes@) }),
                    ),
                decreases len - p,
            {
                if p < len && s.get_char(p) == '|' {
                    match p_node_at(s, p + 1) {
                        Some((p2, n2)) => {
                            let ghost n2_view = n2.deep();
                            proof {
                                assert(nodes_deep(nodes@.push(n2)) =~= nodes_deep(nodes@).push(
                                    n2_view,
                                ));
                            }
                            nodes.push(n2);
                            p = p2;
                        },
                        None => {
                            break ;
                        },
                    }
                } else {
                    break ;
                }
            }
            let pipe = VDLPipeline { pipeline: nodes };
            proof {
                assert(pipe.deep().pipeline =~= nodes_deep(pipe.pipeline@));
                assert(pipe.deep() == (VDLPipelineView { pipeline: nodes_deep(pipe.pipeline@) }));
            }
            (p, pipe)
        },
    }
}

/// The input left after a parse that stopped at a position.
fn rest_of(s: &str, e: usize) -> (r: String)
    requires
        e <= s@.len(),
    ensures
        r@ == s@.subrange(e as int, s@.len() as int),
{
    s.substring_char(e, s.unicode_len()).to_owned()
}

/// Parses a bare identifier at the start of the input; hands back the rest
/// of the input and the identifier.
pub fn parse_bare_identifier(input: &str) -> (r: Result<(String, String), ParseError>)
    ensures
        r matches Ok(rv) ==> {
            &&& p_bare_ident(input@, 0) matches Some(ev)
            &&& rv.1@ == ev.1
            &&& rv.0@ == input@.subrange(ev.0, input@.len() as int)
        },
        r is Err ==> p_bare_ident(input@, 0) is None,
{
    match p_bare_ident_at(input, 0) {
        Some((e, v)) => Ok((rest_of(input, e), v)),
        None => Err(ParseError { pos: 0 }),
    }
}

/// Parses an identifier, quoted or bare, at the start of the input.
pub fn parse_identifier(input: &str) -> (r: Result<(String, String), ParseError>)
    ensures
        r matches Ok(rv) ==> {
            &&& p_ident(input@, 0) matches Some(ev)
            &&& rv.1@ == ev.1
            &&& rv.0@ == input@.subrange(ev.0, input@.len() as int)
        },
        r is Err ==> p_ident(input@, 0) is None,
{
    match p_ident_at(input, 0) {
        Some((e, v)) => Ok((rest_of(input, e), v)),
        None => Err(ParseError { pos: 0 }),
    }
}

/// Parses a quoted string at the start of the input, unescaping its
/// content.
pub fn parse_quoted_string(input: &str) -> (r: Result<(String, String), ParseError>)
    ensures
        r matches Ok(rv) ==> {
            &&& p_quoted(input@, 0) matches Some(ev)
            &&& rv.1@ == ev.1
            &&& rv.0@ == input@.subrange(ev.0, input@.len() as int)
        },
        r is Err ==> p_quoted(input@, 0) is None,
{
    match p_quoted_at(input, 0) {
        Some((e, v)) => Ok((rest_of(input, e), v)),
        None => Err(ParseError { pos: 0 }),
    }
}

/// Parses a bare value at the start of the input.
pub fn parse_unquoted_value(input: &str) -> (r: Result<(String, String), ParseError>)
    ensures
        r matches Ok(rv) ==> {
            &&& p_unquoted(input@, 0) matches Some(ev)
            &&& rv.1@ == ev.1
            &&& rv.0@ == input@.subrange(ev.0, input@.len() as int)
        },
        r is Err ==> p_unquoted(input@, 0) is None,
{
    match p_unquoted_at(input, 0) {
        Some((e, v)) => Ok((rest_of(input, e), v)),
        None => Err(ParseError { pos: 0 }),
    }
}

/// Parses a property value at the start of the input: one item or an
/// array.
pub fn parse_value(input: &str) -> (r: Result<(String, Vec<String>), ParseError>)
    ensures
        r matches Ok(rv) ==> {
            &&& p_value(input@, 0) matches Some(ev)
            &&& strs_deep(rv.1@) == ev.1
            &&& rv.0@ == input@.subrange(ev.0, input@.len() as int)
        },
        r is Err ==> p_value(input@, 0) is None,
{
    match p_value_at(input, 0) {
        Some((e, v)) => Ok((rest_of(input, e), v)),
        None => Err(ParseError { pos: 0 }),
    }
}

/// Parses one `key=value` property at the start of the input.
pub fn parse_prop(input: &str) -> (r: Result<(String, (String, Vec<String>)), ParseError>)
    ensures
        r matches Ok(rv) ==> {
            &&& p_prop(input@, 0) matches Some(ev)
            &&& (rv.1.0@, strs_deep(rv.1.1@)) == ev.1
            &&& rv.0@ == input@.subrange(ev.0, input@.len() as int)
        },
        r is Err ==> p_prop(input@, 0) is None,
{
    match p_prop_at(input, 0) {
        Some((e, kv)) => Ok((rest_of(input, e), kv)),
        None => Err(ParseError { pos: 0 }),
    }
}

/// Parses one node at the start of the input.
pub fn parse_node(input: &str) -> (r: Result<(String, VDLNode), ParseError>)
    ensures
        r matches Ok(rv) ==> {
            &&& p_node(input@, 0) matches Some(ev)
            &&& rv.1.deep() == ev.1
            &&& rv.0@ == input@.subrange(ev.0, input@.len() as int)
        },
        r is Err ==> p_node(input@, 0) is None,
{
    match p_node_at(input, 0) {
        Some((e, n)) => Ok((rest_of(input, e), n)),
        None => Err(ParseError { pos: 0 }),
    }
}

/// Parses a whole document: one pipeline, which must span the input up to
/// trailing whitespace. Errs exactly on malformed or trailing input.
pub fn parse_vdl(input: &str) -> (r: Result<VDLPipeline, ParseError>)
    ensures
        r matches Ok(p) ==> vdl_parse(input@) == Some(p.deep()),
        r matches Err(_) ==> vdl_parse(input@) is None,
{
    let (end, pipe) = p_pipeline_at(input, 0);
    let pe = skip_ws(input, end);
    if pe == input.unicode_len() {
        Ok(pipe)
    } else {
        Err(ParseError { pos: pe })
    }
}

} // verus!
