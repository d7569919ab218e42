//! Paths as lists of components, and the pieces that properties name.
//!
//! A path is the list of its components from the root down, as the
//! platform splits it: the root is the component `/`, and `.` and `..`
//! stand for themselves. Texts are put together again with `/` between
//! components.

use crate::text::{
    lemma_text_order_one_way, lemma_text_order_total, lemma_text_order_transitive, str_eq,
    text_before, text_less,
};
use vstd::prelude::*;
use vstd::string::StrSliceExecFns;
use vstd::string::StringExecFns;

verus! {

/// The texts of a list of components.
pub open spec fn texts(parts: Seq<String>) -> Seq<Seq<char>> {
    parts.map_values(|part: String| part@)
}

/// Whether a component is the root, `.` or `..` rather than a name.
pub open spec fn is_special(part: Seq<char>) -> bool {
    part == seq!['/'] || part == seq!['.'] || part == seq!['.', '.']
}

/// `acc` with one more component: a rooted component replaces what
/// came before, and a separator is put in unless `acc` is empty or
/// already ends in one.
pub open spec fn join_step(acc: Seq<char>, part: Seq<char>) -> Seq<char> {
    if part == seq!['/'] {
        part
    } else if acc.len() == 0 || acc.last() == '/' {
        acc + part
    } else {
        acc + seq!['/'] + part
    }
}

/// The text of a path made of the given components.
pub open spec fn joined(parts: Seq<Seq<char>>) -> Seq<char>
    decreases parts.len(),
{
    if parts.len() == 0 {
        Seq::<char>::empty()
    } else {
        join_step(joined(parts.drop_last()), parts.last())
    }
}

/// Whether the path has a parent: it is not empty and does not end in
/// the root.
pub open spec fn has_parent(parts: Seq<Seq<char>>) -> bool {
    parts.len() > 0 && parts.last() != seq!['/']
}

/// The components of the parent.
pub open spec fn parent_parts(parts: Seq<Seq<char>>) -> Seq<Seq<char>>
    recommends
        has_parent(parts),
{
    parts.drop_last()
}

/// The file name: the last component, where it is a name.
pub open spec fn file_name(parts: Seq<Seq<char>>) -> Option<Seq<char>> {
    if parts.len() > 0 && !is_special(parts.last()) {
        Some(parts.last())
    } else {
        None
    }
}

/// The position of the last `.` in `name`, or -1 where there is none.
pub open spec fn last_dot(name: Seq<char>) -> int
    decreases name.len(),
{
    if name.len() == 0 {
        -1
    } else if name.last() == '.' {
        name.len() - 1
    } else {
        last_dot(name.drop_last())
    }
}

/// The extension of a file name: what follows its last `.`, unless the
/// name has no `.` or its only `.` is the first character.
pub open spec fn extension_of(name: Seq<char>) -> Option<Seq<char>> {
    let k = last_dot(name);
    if k > 0 {
        Some(name.subrange(k + 1, name.len() as int))
    } else {
        None
    }
}

/// The stem of a file name: what precedes its last `.`, or the whole
/// name where it has no extension.
pub open spec fn stem_of(name: Seq<char>) -> Seq<char> {
    let k = last_dot(name);
    if k > 0 {
        name.subrange(0, k)
    } else {
        name
    }
}

/// The last `.` of a name is a `.`, and no `.` follows it.
pub proof fn lemma_last_dot(name: Seq<char>)
    ensures
        -1 <= last_dot(name) < name.len(),
        last_dot(name) >= 0 ==> name[last_dot(name)] == '.',
        forall|j: int| last_dot(name) < j < name.len() ==> name[j] != '.',
    decreases name.len(),
{
    if name.len() > 0 && name.last() != '.' {
        lemma_last_dot(name.drop_last());
        assert forall|j: int| last_dot(name) < j < name.len() implies name[j] != '.' by {
            if j < name.len() - 1 {
                assert(name.drop_last()[j] == name[j]);
            }
        }
    }
}

/// An extension never holds a `.`, and stem, `.` and extension put
/// together give the name back.
pub proof fn lemma_stem_and_extension(name: Seq<char>)
    ensures
        match extension_of(name) {
            Some(ext) => {
                &&& !ext.contains('.')
                &&& stem_of(name).len() > 0
                &&& stem_of(name) + seq!['.'] + ext == name
            },
            None => stem_of(name) == name,
        },
{
    lemma_last_dot(name);
    let k = last_dot(name);
    if k > 0 {
        let ext = name.subrange(k + 1, name.len() as int);
        assert(!ext.contains('.')) by {
            if ext.contains('.') {
                let j = choose|j: int| 0 <= j < ext.len() && ext[j] == '.';
                assert(name[k + 1 + j] == '.');
            }
        }
        assert(stem_of(name) + seq!['.'] + ext =~= name);
    }
}

/// Whether the path `a` comes before the path `b` when paths are
/// compared component by component, each component as a text; a path
/// comes after every path above it.
pub open spec fn path_before(a: Seq<Seq<char>>, b: Seq<Seq<char>>) -> bool
    decreases a.len(),
{
    if b.len() == 0 {
        false
    } else if a.len() == 0 {
        true
    } else if a[0] != b[0] {
        text_before(a[0], b[0])
    } else {
        path_before(a.drop_first(), b.drop_first())
    }
}

/// Of two different paths one comes before the other.
pub proof fn lemma_path_order_total(a: Seq<Seq<char>>, b: Seq<Seq<char>>)
    requires
        a != b,
    ensures
        path_before(a, b) || path_before(b, a),
    decreases a.len(),
{
    if a.len() > 0 && b.len() > 0 {
        if a[0] == b[0] {
            if a.drop_first() == b.drop_first() {
                assert(a =~= seq![a[0]] + a.drop_first());
                assert(b =~= seq![b[0]] + b.drop_first());
            }
            lemma_path_order_total(a.drop_first(), b.drop_first());
        } else {
            lemma_text_order_total(a[0], b[0]);
        }
    } else if a.len() == 0 && b.len() == 0 {
        assert(a =~= b);
    }
}

/// No path comes before itself.
pub proof fn lemma_path_order_strict(a: Seq<Seq<char>>)
    ensures
        !path_before(a, a),
    decreases a.len(),
{
    if a.len() > 0 {
        lemma_path_order_strict(a.drop_first());
    }
}

/// What comes before a path comes before everything after it.
pub proof fn lemma_path_order_transitive(
    a: Seq<Seq<char>>,
    b: Seq<Seq<char>>,
    c: Seq<Seq<char>>,
)
    requires
        path_before(a, b),
        path_before(b, c),
    ensures
        path_before(a, c),
    decreases a.len(),
{
    if a.len() > 0 {
        if a[0] == b[0] && b[0] == c[0] {
            lemma_path_order_transitive(a.drop_first(), b.drop_first(), c.drop_first());
        } else if a[0] != b[0] && b[0] != c[0] {
            lemma_text_order_transitive(a[0], b[0], c[0]);
            lemma_text_order_one_way(a[0], b[0]);
        }
    }
}

/// A path as the list of its components from the root down.
#[derive(Clone, Debug, PartialEq, Eq)]
pub struct SourcePath {
    pub parts: Vec<String>,
}

impl View for SourcePath {
    type V = Seq<Seq<char>>;

    open spec fn view(&self) -> Seq<Seq<char>> {
        texts(self.parts@)
    }
}

/// Whether `text` ends in a separator.
fn ends_in_separator(text: &str) -> (yes: bool)
    ensures
        yes == (text@.len() > 0 && text@.last() == '/'),
{
    let n: usize = text.unicode_len();
    n > 0 && text.get_char(n - 1) == '/'
}

/// Whether a component is the root.
fn is_root(part: &str) -> (yes: bool)
    ensures
        yes == (part@ == seq!['/']),
{
    proof {
        reveal_strlit("/");
        assert("/"@ =~= seq!['/']);
    }
    str_eq(part, "/")
}

/// Whether a component is the root, `.` or `..`.
fn special(part: &str) -> (yes: bool)
    ensures
        yes == is_special(part@),
{
    proof {
        reveal_strlit(".");
        reveal_strlit("..");
        assert("."@ =~= seq!['.']);
        assert(".."@ =~= seq!['.', '.']);
    }
    is_root(part) || str_eq(part, ".") || str_eq(part, "..")
}

/// The position of the last `.` in `name`, if it has one.
fn find_last_dot(name: &str) -> (found: Option<usize>)
    ensures
        match found {
            Some(k) => k as int == last_dot(name@),
            None => last_dot(name@) == -1,
        },
{
    let mut end: usize = name.unicode_len();
    proof {
        assert(name@.take(end as int) =~= name@);
    }
    while end > 0
        invariant
            end <= name@.len(),
            last_dot(name@) == last_dot(name@.take(end as int)),
        decreases end,
    {
        proof {
            assert(name@.take(end as int).drop_last() =~= name@.take(end as int - 1));
        }
        if name.get_char(end - 1) == '.' {
            return Some(end - 1);
        }
        end = end - 1;
    }
    None
}

impl SourcePath {
    /// The path made of the given components.
    pub fn new(parts: Vec<String>) -> (path: SourcePath)
        ensures
            path.parts == parts,
    {
        SourcePath { parts }
    }

    /// How many components the path has.
    pub fn depth(&self) -> (n: usize)
        ensures
            n == self@.len(),
    {
        self.parts.len()
    }

    /// The text of the components from `from` up to, not including, `to`.
    pub fn join(&self, from: usize, to: usize) -> (text: String)
        requires
            from <= to <= self@.len(),
        ensures
            text@ == joined(self@.subrange(from as int, to as int)),
    {
        let mut text = String::new();
        let mut i: usize = from;
        while i < to
            invariant
                from <= i <= to <= self.parts@.len(),
                text@ == joined(self@.subrange(from as int, i as int)),
            decreases to - i,
        {
            let part = self.parts[i].as_str();
            proof {
                let next = self@.subrange(from as int, i as int + 1);
                assert(next.drop_last() =~= self@.subrange(from as int, i as int));
                assert(next.last() == part@);
            }
            if is_root(part) {
                text = part.to_owned();
            } else if ends_in_separator(text.as_str()) || text.as_str().unicode_len() == 0 {
                text.append(part);
            } else {
                proof {
                    reveal_strlit("/");
                    assert("/"@ =~= seq!['/']);
                }
                text.append("/");
                text.append(part);
            }
            i = i + 1;
        }
        text
    }

    /// Whether this path comes before `other`, component by component.
    pub fn comes_before(&self, other: &SourcePath) -> (yes: bool)
        ensures
            yes == path_before(self@, other@),
    {
        let n: usize = self.parts.len();
        let m: usize = other.parts.len();
        let mut i: usize = 0;
        proof {
            assert(self@.skip(0) =~= self@);
            assert(other@.skip(0) =~= other@);
        }
        while i < n && i < m
            invariant
                i <= n,
                i <= m,
                n == self@.len(),
                m == other@.len(),
                path_before(self@, other@) == path_before(
                    self@.skip(i as int),
                    other@.skip(i as int),
                ),
            decreases n - i,
        {
            let x = self.parts[i].as_str();
            let y = other.parts[i].as_str();
            proof {
                assert(self@.skip(i as int)[0] == x@);
                assert(other@.skip(i as int)[0] == y@);
                assert(self@.skip(i as int).drop_first() =~= self@.skip(i as int + 1));
                assert(other@.skip(i as int).drop_first() =~= other@.skip(i as int + 1));
            }
            if !str_eq(x, y) {
                return text_less(x, y);
            }
            i = i + 1;
        }
        i < m
    }

    /// The whole path as one text.
    pub fn to_text(&self) -> (text: String)
        ensures
            text@ == joined(self@),
    {
        proof {
            assert(self@.subrange(0, self@.len() as int) =~= self@);
        }
        self.join(0, self.parts.len())
    }

    /// Whether the path starts at the root.
    pub fn is_absolute(&self) -> (yes: bool)
        ensures
            yes == (self@.len() > 0 && self@[0] == seq!['/']),
    {
        self.parts.len() > 0 && is_root(self.parts[0].as_str())
    }

    /// The text of the parent directory, where the path has one.
    pub fn parent(&self) -> (dir: Option<String>)
        ensures
            match dir {
                Some(d) => has_parent(self@) && d@ == joined(parent_parts(self@)),
                None => !has_parent(self@),
            },
    {
        let n: usize = self.parts.len();
        if n == 0 || is_root(self.parts[n - 1].as_str()) {
            None
        } else {
            proof {
                assert(self@.subrange(0, n as int - 1) =~= self@.drop_last());
            }
            Some(self.join(0, n - 1))
        }
    }

    /// The file name: the last component, where it is a name.
    pub fn name(&self) -> (name: Option<String>)
        ensures
            match name {
                Some(n) => file_name(self@) == Some(n@),
                None => file_name(self@).is_none(),
            },
    {
        let n: usize = self.parts.len();
        if n == 0 || special(self.parts[n - 1].as_str()) {
            None
        } else {
            Some(self.parts[n - 1].clone())
        }
    }

    /// The extension of the file name, without the `.`.
    pub fn extension(&self) -> (ext: Option<String>)
        ensures
            match ext {
                Some(e) => file_name(self@).is_some() && extension_of(file_name(self@).unwrap())
                    == Some(e@),
                None => file_name(self@).is_none() || extension_of(
                    file_name(self@).unwrap(),
                ).is_none(),
            },
    {
        match self.name() {
            Some(name) => {
                proof {
                    lemma_last_dot(name@);
                }
                match find_last_dot(name.as_str()) {
                    Some(k) => if k > 0 {
                        let n: usize = name.as_str().unicode_len();
                        Some(name.as_str().substring_char(k + 1, n).to_owned())
                    } else {
                        None
                    },
                    None => None,
                }
            },
            None => None,
        }
    }

    /// The file name without its extension.
    pub fn stem(&self) -> (stem: Option<String>)
        ensures
            match stem {
                Some(s) => file_name(self@).is_some() && s@ == stem_of(file_name(self@).unwrap()),
                None => file_name(self@).is_none(),
            },
    {
        match self.name() {
            Some(name) => {
                proof {
                    lemma_last_dot(name@);
                }
                match find_last_dot(name.as_str()) {
                    Some(k) => if k > 0 {
                        Some(name.as_str().substring_char(0, k).to_owned())
                    } else {
                        Some(name)
                    },
                    None => Some(name),
                }
            },
            None => None,
        }
    }
}

} // verus!
