//! A static file source rooted at one folder: it resolves request paths
//! to local paths, refusing traversal outside the root.

use vstd::prelude::*;

verus! {

/// Whether a path segment may take part in a local path: no emptiness, no
/// parent references, no separators.
pub open spec fn spec_segment_ok(s: Seq<char>) -> bool {
    &&& s.len() > 0
    &&& s != ".."@
    &&& forall|i: int| 0 <= i < s.len() ==> s[i] != '/' && s[i] != '\\'
}

/// The local path of a request: root and segments joined by slashes.
pub open spec fn spec_joined(root: Seq<char>, parts: Seq<Seq<char>>) -> Seq<char>
    decreases parts.len(),
{
    if parts.len() == 0 {
        root
    } else {
        spec_joined(root + "/"@ + parts[0], parts.subrange(1, parts.len() as int))
    }
}

/// The views of path segments.
pub open spec fn parts_view(v: Seq<String>) -> Seq<Seq<char>> {
    Seq::new(v.len(), |i: int| v[i]@)
}

/// A static source serving files under one root folder.
#[derive(Debug)]
pub struct Folder {
    pub folder: String,
    pub name: String,
}

impl Folder {
    /// A source over a root folder, under a mount name.
    pub fn new(folder: String, name: String) -> (r: Folder)
        ensures
            r.folder@ == folder@,
            r.name@ == name@,
    {
        Folder { folder, name }
    }

    pub fn get_name(&self) -> (r: &str)
        ensures
            r@ == self.name@,
    {
        self.name.as_str()
    }

    /// The local path a request resolves to: the root and the segments
    /// joined by slashes; nothing when a segment is empty, a parent
    /// reference, or holds a separator, so the path can never leave the
    /// root.
    pub fn local_path(&self, parts: &Vec<String>) -> (r: Option<String>)
        ensures
            (forall|i: int| 0 <= i < parts@.len() ==> spec_segment_ok(#[trigger] parts@[i]@)) ==> (
            r matches Some(p) && p@ == spec_joined(self.folder@, parts_view(parts@))),
            (exists|i: int|
                0 <= i < parts@.len() && !spec_segment_ok(#[trigger] parts@[i]@)) ==> r is None,
    {
        let n = parts.len();
        let mut out = self.folder.clone();
        let mut i: usize = 0;
        proof {
            assert(parts_view(parts@).subrange(0, n as int) =~= parts_view(parts@));
        }
        while i < n
            invariant
                i <= n,
                n == parts@.len(),
                forall|k: int| 0 <= k < i ==> spec_segment_ok(#[trigger] parts@[k]@),
                spec_joined(self.folder@, parts_view(parts@)) == spec_joined(
                    out@,
                    parts_view(parts@).subrange(i as int, n as int),
                ),
            decreases n - i,
        {
            let seg = &parts[i];
            if !segment_ok(seg) {
                return None;
            }
            let ghost pre = parts_view(parts@).subrange(i as int, n as int);
            proof {
                assert(pre[0] == parts@[i as int]@);
                assert(pre.subrange(1, pre.len() as int) =~= parts_view(parts@).subrange(
                    i + 1,
                    n as int,
                ));
            }
            out.append("/");
            out.append(seg.as_str());
            i = i + 1;
        }
        proof {
            assert(parts_view(parts@).subrange(n as int, n as int) =~= Seq::<Seq<char>>::empty());
        }
        Some(out)
    }
}

/// Whether a path segment may take part in a local path.
fn segment_ok(s: &String) -> (r: bool)
    ensures
        r == spec_segment_ok(s@),
{
    let len = s.as_str().unicode_len();
    if len == 0 {
        return false;
    }
    if *s == "..".to_owned() {
        return false;
    }
    let mut i: usize = 0;
    while i < len
        invariant
            i <= len,
            len == s@.len(),
            forall|k: int| 0 <= k < i ==> s@[k] != '/' && s@[k] != '\\',
        decreases len - i,
    {
        let c = s.as_str().get_char(i);
        if c == '/' || c == '\\' {
            return false;
        }
        i = i + 1;
    }
    true
}

} // verus!
