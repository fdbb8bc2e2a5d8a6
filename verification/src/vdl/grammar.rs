//! The pipeline language's grammar, written as total specification
//! functions over character sequences.
//!
//! Each function takes the input and a position and yields the position
//! after the parsed phrase together with its value, or nothing when the
//! phrase is absent. `parse` in [`crate::vdl::parser`] is proved to return
//! exactly what these functions describe.
//!
//! Grammar: a pipeline is `node ('|' node)*`; a node is
//! `identifier property* children?`; a property is
//! `identifier '=' (string | bareword | '[' list ']')`; children are
//! `'[' node ((',' | '|') node)* ']'`, each child node its own pipeline.
//! Whitespace between tokens is free;
//! a failed optional phrase consumes nothing.

use vstd::prelude::*;

use crate::vdl::ast::VDLNodeView;
use crate::vdl::ast::VDLPipelineView;

verus! {

/// Whitespace between tokens.
pub open spec fn is_ws(c: char) -> bool {
    c == ' ' || c == '\t' || c == '\n' || c == '\r'
}

pub open spec fn is_digit(c: char) -> bool {
    48 <= (c as u32) <= 57
}

pub open spec fn is_alnum(c: char) -> bool {
    is_digit(c) || 65 <= (c as u32) <= 90 || 97 <= (c as u32) <= 122
}

/// Characters of a bare identifier.
pub open spec fn is_ident_char(c: char) -> bool {
    is_alnum(c) || c == '_' || c == '-'
}

/// Characters an identifier may start with: no digits.
pub open spec fn is_ident_start(c: char) -> bool {
    is_ident_char(c) && !is_digit(c)
}

/// Characters of a bare property value.
pub open spec fn is_value_char(c: char) -> bool {
    is_alnum(c) || c == '.' || c == '-' || c == '_'
}

/// What a backslash escape inside a quoted string stands for.
pub open spec fn esc_of(c: char) -> Option<char> {
    if c == '\\' {
        Some('\\')
    } else if c == '"' {
        Some('"')
    } else if c == 'n' {
        Some('\n')
    } else if c == 't' {
        Some('\t')
    } else {
        None
    }
}

/// Characters left to read; zero outside the input.
pub open spec fn rem(s: Seq<char>, pos: int) -> nat {
    if 0 <= pos <= s.len() {
        (s.len() - pos) as nat
    } else {
        0
    }
}

/// First position at or after `pos` that holds no whitespace.
pub open spec fn scan_ws(s: Seq<char>, pos: int) -> int
    decreases rem(s, pos),
{
    if 0 <= pos < s.len() && is_ws(s[pos]) {
        scan_ws(s, pos + 1)
    } else {
        pos
    }
}

/// First position at or after `pos` that holds no identifier character.
pub open spec fn scan_ident(s: Seq<char>, pos: int) -> int
    decreases rem(s, pos),
{
    if 0 <= pos < s.len() && is_ident_char(s[pos]) {
        scan_ident(s, pos + 1)
    } else {
        pos
    }
}

/// First position at or after `pos` that holds no bare-value character.
pub open spec fn scan_value(s: Seq<char>, pos: int) -> int
    decreases rem(s, pos),
{
    if 0 <= pos < s.len() && is_value_char(s[pos]) {
        scan_value(s, pos + 1)
    } else {
        pos
    }
}

/// The rest of a quoted string after its opening quote: unescaped content
/// and the position after the closing quote. Nothing when the string is
/// unterminated or holds an unknown escape.
pub open spec fn qstr(s: Seq<char>, pos: int) -> Option<(int, Seq<char>)>
    decreases rem(s, pos),
{
    if !(0 <= pos < s.len()) {
        None
    } else if s[pos] == '"' {
        Some((pos + 1, Seq::empty()))
    } else if s[pos] == '\\' {
        if pos + 1 < s.len() {
            match esc_of(s[pos + 1]) {
                Some(e) => match qstr(s, pos + 2) {
                    Some((end, tail)) => Some((end, seq![e] + tail)),
                    None => None,
                },
                None => None,
            }
        } else {
            None
        }
    } else {
        match qstr(s, pos + 1) {
            Some((end, tail)) => Some((end, seq![s[pos]] + tail)),
            None => None,
        }
    }
}

/// A quoted string: both quotes and the unescaped content.
pub open spec fn p_quoted(s: Seq<char>, pos: int) -> Option<(int, Seq<char>)> {
    if 0 <= pos < s.len() && s[pos] == '"' {
        qstr(s, pos + 1)
    } else {
        None
    }
}

/// A bare identifier: a maximal run of identifier characters not starting
/// with a digit.
pub open spec fn p_bare_ident(s: Seq<char>, pos: int) -> Option<(int, Seq<char>)> {
    if 0 <= pos < s.len() && is_ident_start(s[pos]) {
        let end = scan_ident(s, pos);
        Some((end, s.subrange(pos, end)))
    } else {
        None
    }
}

/// A bare value: a maximal run of value characters.
pub open spec fn p_unquoted(s: Seq<char>, pos: int) -> Option<(int, Seq<char>)> {
    if 0 <= pos < s.len() && is_value_char(s[pos]) {
        let end = scan_value(s, pos);
        Some((end, s.subrange(pos, end)))
    } else {
        None
    }
}

/// An identifier: a quoted string, or else a bare identifier.
pub open spec fn p_ident(s: Seq<char>, pos: int) -> Option<(int, Seq<char>)> {
    match p_quoted(s, pos) {
        Some(r) => Some(r),
        None => p_bare_ident(s, pos),
    }
}

/// One array item: a quoted string or a bare value.
pub open spec fn p_item(s: Seq<char>, pos: int) -> Option<(int, Seq<char>)> {
    match p_quoted(s, pos) {
        Some(r) => Some(r),
        None => p_unquoted(s, pos),
    }
}

/// Closes an array: optional whitespace, then the closing bracket.
pub open spec fn a_close(s: Seq<char>, pos: int, acc: Seq<Seq<char>>) -> Option<(
    int,
    Seq<Seq<char>>,
)> {
    let pe = scan_ws(s, pos);
    if 0 <= pe < s.len() && s[pe] == ']' {
        Some((pe + 1, acc))
    } else {
        None
    }
}

/// Further array items: `(',' item)*` then the closing bracket. A comma
/// not followed by an item ends the list before the comma.
pub open spec fn a_tail(s: Seq<char>, pos: int, acc: Seq<Seq<char>>) -> Option<(
    int,
    Seq<Seq<char>>,
)>
    decreases rem(s, pos),
{
    let p1 = scan_ws(s, pos);
    if 0 <= p1 < s.len() && s[p1] == ',' {
        let p2 = scan_ws(s, p1 + 1);
        match p_item(s, p2) {
            Some((p3, v)) => if 0 <= pos < p3 <= s.len() {
                a_tail(s, p3, acc.push(v))
            } else {
                None
            },
            None => a_close(s, pos, acc),
        }
    } else {
        a_close(s, pos, acc)
    }
}

/// A bracketed list of values: `'[' (item (',' item)*)? ']'`.
pub open spec fn p_array(s: Seq<char>, pos: int) -> Option<(int, Seq<Seq<char>>)> {
    if 0 <= pos < s.len() && s[pos] == '[' {
        let p0 = scan_ws(s, pos + 1);
        match p_item(s, p0) {
            Some((p1, v)) => a_tail(s, p1, seq![v]),
            None => if 0 <= p0 < s.len() && s[p0] == ']' {
                Some((p0 + 1, Seq::empty()))
            } else {
                None
            },
        }
    } else {
        None
    }
}

/// A property's value: a quoted string or bare value (one item), or an
/// array of them.
pub open spec fn p_value(s: Seq<char>, pos: int) -> Option<(int, Seq<Seq<char>>)> {
    match p_item(s, pos) {
        Some((end, v)) => Some((end, seq![v])),
        None => p_array(s, pos),
    }
}

/// One property: `identifier '=' value`, whitespace free around `=`.
pub open spec fn p_prop(s: Seq<char>, pos: int) -> Option<(int, (Seq<char>, Seq<Seq<char>>))> {
    match p_ident(s, pos) {
        Some((p1, key)) => {
            let p2 = scan_ws(s, p1);
            if 0 <= p2 < s.len() && s[p2] == '=' {
                let p3 = scan_ws(s, p2 + 1);
                match p_value(s, p3) {
                    Some((end, vals)) => Some((end, (key, vals))),
                    None => None,
                }
            } else {
                None
            }
        },
        None => None,
    }
}

/// Further properties, each separated by at least one whitespace
/// character. The list ends before separating whitespace that no property
/// follows.
pub open spec fn props_tail(s: Seq<char>, pos: int, acc: Seq<(Seq<char>, Seq<Seq<char>>)>) -> (
    int,
    Seq<(Seq<char>, Seq<Seq<char>>)>,
)
    decreases rem(s, pos),
{
    let p1 = scan_ws(s, pos);
    if p1 > pos {
        match p_prop(s, p1) {
            Some((p2, kv)) => if 0 <= pos < p2 <= s.len() {
                props_tail(s, p2, acc.push(kv))
            } else {
                (pos, acc)
            },
            None => (pos, acc),
        }
    } else {
        (pos, acc)
    }
}

/// A node's property list, possibly empty.
pub open spec fn p_props(s: Seq<char>, pos: int) -> (int, Seq<(Seq<char>, Seq<Seq<char>>)>) {
    match p_prop(s, pos) {
        Some((p1, kv)) => props_tail(s, p1, seq![kv]),
        None => (pos, Seq::empty()),
    }
}

/// Adds one parsed property to an ordered property list: values of an
/// already-present key are appended to that key's entry, in place; a new
/// key goes to the end.
pub open spec fn add_prop(
    acc: Seq<(Seq<char>, Seq<Seq<char>>)>,
    key: Seq<char>,
    vals: Seq<Seq<char>>,
) -> Seq<(Seq<char>, Seq<Seq<char>>)>
    decreases acc.len(),
{
    if acc.len() == 0 {
        seq![(key, vals)]
    } else if acc[0].0 == key {
        seq![(acc[0].0, acc[0].1 + vals)] + acc.subrange(1, acc.len() as int)
    } else {
        seq![acc[0]] + add_prop(acc.subrange(1, acc.len() as int), key, vals)
    }
}

/// Folds a parsed property list into an ordered map, first to last.
pub open spec fn merge_into(
    acc: Seq<(Seq<char>, Seq<Seq<char>>)>,
    raw: Seq<(Seq<char>, Seq<Seq<char>>)>,
) -> Seq<(Seq<char>, Seq<Seq<char>>)>
    decreases raw.len(),
{
    if raw.len() == 0 {
        acc
    } else {
        merge_into(add_prop(acc, raw[0].0, raw[0].1), raw.subrange(1, raw.len() as int))
    }
}

/// A parsed property list as an ordered map: declaration order is kept and
/// values of duplicate keys concatenate.
pub open spec fn merge_props(raw: Seq<(Seq<char>, Seq<Seq<char>>)>) -> Seq<
    (Seq<char>, Seq<Seq<char>>),
> {
    merge_into(Seq::empty(), raw)
}

/// One node: whitespace, an identifier, properties, optional children,
/// trailing whitespace.
pub open spec fn p_node(s: Seq<char>, pos: int) -> Option<(int, VDLNodeView)>
    decreases rem(s, pos), 2int,
{
    let p0 = scan_ws(s, pos);
    match p_ident(s, p0) {
        Some((p1, name)) => {
            let p2 = scan_ws(s, p1);
            let (p3, raw) = p_props(s, p2);
            let p4 = scan_ws(s, p3);
            if 0 <= pos <= p4 <= s.len() {
                match p_children(s, p4) {
                    Some((p5, kids)) => {
                        let p6 = scan_ws(s, p5);
                        Some(
                            (
                                p6,
                                VDLNodeView {
                                    name,
                                    properties: merge_props(raw),
                                    children: kids,
                                },
                            ),
                        )
                    },
                    None => None,
                }
            } else {
                None
            }
        },
        None => None,
    }
}

/// A node's optional children: nothing consumed when no bracket follows or
/// the bracketed phrase is malformed.
pub open spec fn p_children(s: Seq<char>, pos: int) -> Option<(int, Seq<VDLPipelineView>)>
    decreases rem(s, pos), 1int,
{
    if 0 <= pos < s.len() && s[pos] == '[' {
        match p_child_pipes(s, pos + 1) {
            Some((pe, pvs)) => if 0 <= pe < s.len() && s[pe] == ']' {
                Some((pe + 1, pvs))
            } else {
                Some((pos, Seq::empty()))
            },
            None => Some((pos, Seq::empty())),
        }
    } else {
        Some((pos, Seq::empty()))
    }
}

/// The pipelines between a node's brackets, each one node wrapped as its
/// own pipeline; commas and bars both separate them.
pub open spec fn p_child_pipes(s: Seq<char>, pos: int) -> Option<(int, Seq<VDLPipelineView>)>
    decreases rem(s, pos), 4int,
{
    match p_node(s, pos) {
        Some((p1, nv)) => if 0 <= pos <= p1 <= s.len() {
            c_tail(s, p1, seq![VDLPipelineView { pipeline: seq![nv] }])
        } else {
            None
        },
        None => None,
    }
}

/// Further child pipelines: `((',' | '|') node)*`.
pub open spec fn c_tail(s: Seq<char>, pos: int, acc: Seq<VDLPipelineView>) -> Option<(
    int,
    Seq<VDLPipelineView>,
)>
    decreases rem(s, pos), 3int,
{
    if 0 <= pos < s.len() && (s[pos] == ',' || s[pos] == '|') {
        match p_node(s, pos + 1) {
            Some((p2, nv)) => if 0 <= pos < p2 <= s.len() {
                c_tail(s, p2, acc.push(VDLPipelineView { pipeline: seq![nv] }))
            } else {
                None
            },
            None => Some((pos, acc)),
        }
    } else {
        Some((pos, acc))
    }
}

/// A pipeline: nodes joined by `'|'`, possibly none, surrounded by free
/// whitespace.
pub open spec fn p_pipeline(s: Seq<char>, pos: int) -> Option<(int, VDLPipelineView)>
    decreases rem(s, pos), 3int,
{
    match p_node(s, pos) {
        Some((p1, nv)) => if 0 <= pos < p1 <= s.len() {
            match pipe_tail(s, p1, seq![nv]) {
                Some((pe, nodes)) => Some((pe, VDLPipelineView { pipeline: nodes })),
                None => None,
            }
        } else {
            None
        },
        None => Some((scan_ws(s, pos), VDLPipelineView { pipeline: Seq::empty() })),
    }
}

/// Further nodes of a pipeline: `('|' node)*`. A bar that no node follows
/// ends the pipeline before the bar.
pub open spec fn pipe_tail(s: Seq<char>, pos: int, acc: Seq<VDLNodeView>) -> Option<(
    int,
    Seq<VDLNodeView>,
)>
    decreases rem(s, pos), 3int,
{
    if 0 <= pos < s.len() && s[pos] == '|' {
        match p_node(s, pos + 1) {
            Some((p2, nv)) => if 0 <= pos < p2 <= s.len() {
                pipe_tail(s, p2, acc.push(nv))
            } else {
                None
            },
            None => Some((pos, acc)),
        }
    } else {
        Some((pos, acc))
    }
}

/// What a whole document means: one pipeline, then only whitespace until
/// the end of the input. Nothing when the document is malformed or has
/// trailing content.
pub open spec fn vdl_parse(s: Seq<char>) -> Option<VDLPipelineView> {
    match p_pipeline(s, 0) {
        Some((end, pv)) => if scan_ws(s, end) == s.len() {
            Some(pv)
        } else {
            None
        },
        None => None,
    }
}

} // verus!
