//! A field's position in the config tree and the spellings generated from it:
//! flag, env name, toml key.

use vstd::prelude::*;

use crate::text::{join, joined, lemma_views_push, owned, replace_char, replaced, same, upper, uppercase, views};

verus! {

/// The flag spelling of a path: `--` then the segments with `_` → `-`,
/// joined by `--`.
pub open spec fn flag_of(p: Seq<Seq<char>>) -> Seq<char> {
    "--"@ + join(p.map_values(|s: Seq<char>| replace_char(s, '_', '-')), "--"@)
}

/// The environment spelling: `<app>_` then the upper-cased segments joined
/// by `__`.
pub open spec fn env_of(p: Seq<Seq<char>>, app: Seq<char>) -> Seq<char> {
    app + "_"@ + join(p.map_values(|s: Seq<char>| upper(s)), "__"@)
}

/// The TOML key: the segments joined by `.`.
pub open spec fn dotted_of(p: Seq<Seq<char>>) -> Seq<char> {
    join(p, "."@)
}

/// The TOML table holding the leaf: every segment but the last.
pub open spec fn section_of(p: Seq<Seq<char>>) -> Seq<char> {
    if p.len() == 0 {
        seq![]
    } else {
        join(p.drop_last(), "."@)
    }
}

/// The last segment, empty at the root.
pub open spec fn leaf_of(p: Seq<Seq<char>>) -> Seq<char> {
    if p.len() == 0 {
        seq![]
    } else {
        p.last()
    }
}

/// The TOML key of a path below the root is its leaf where the leaf sits at
/// the top level, else its section, a dot and its leaf. (A section that
/// joins to nothing, as a single empty first segment does, is left out:
/// there the key still starts with the dot.)
pub proof fn lemma_dotted_section_leaf(p: Seq<Seq<char>>)
    requires
        p.len() > 0,
        p.len() == 1 || section_of(p).len() > 0,
    ensures
        dotted_of(p) == if section_of(p).len() == 0 {
            leaf_of(p)
        } else {
            section_of(p) + "."@ + leaf_of(p)
        },
{
    if p.len() == 1 {
        assert(p.drop_last() =~= Seq::<Seq<char>>::empty());
        assert(p.last() == p[0]);
    }
}

#[derive(Debug, Clone, PartialEq, Eq)]
pub struct Path {
    segments: Vec<String>,
}

impl View for Path {
    type V = Seq<Seq<char>>;

    closed spec fn view(&self) -> Seq<Seq<char>> {
        views(self.segments@)
    }
}

impl Path {
    pub fn root() -> (r: Self)
        ensures
            r@ == Seq::<Seq<char>>::empty(),
    {
        let r = Path { segments: Vec::new() };
        assert(r@ =~= Seq::<Seq<char>>::empty());
        r
    }

    pub fn child(&self, name: &str) -> (r: Self)
        ensures
            r@ == self@.push(name@),
    {
        let mut segments = self.segments.clone();
        proof {
            assert(segments@ =~= self.segments@);
        }
        segments.push(owned(name));
        let r = Path { segments };
        assert(r@ =~= self@.push(name@));
        r
    }

    /// A copy with the same segments.
    pub fn duplicate(&self) -> (r: Self)
        ensures
            r@ == self@,
    {
        let segments = self.segments.clone();
        proof {
            assert(segments@ =~= self.segments@);
        }
        let r = Path { segments };
        assert(r@ =~= self@);
        r
    }

    pub fn segments(&self) -> (r: &Vec<String>)
        ensures
            views(r@) == self@,
    {
        &self.segments
    }

    pub fn is_root(&self) -> (r: bool)
        ensures
            r == (self@.len() == 0),
    {
        self.segments.len() == 0
    }

    pub fn leaf(&self) -> (r: String)
        ensures
            r@ == leaf_of(self@),
    {
        let n = self.segments.len();
        if n == 0 {
            String::new()
        } else {
            self.segments[n - 1].clone()
        }
    }

    pub fn section(&self) -> (r: String)
        ensures
            r@ == section_of(self@),
    {
        let n = self.segments.len();
        if n == 0 {
            return String::new();
        }
        let mut parents: Vec<String> = Vec::new();
        let mut i: usize = 0;
        while i < n - 1
            invariant
                n == self.segments.len(),
                n > 0,
                i <= n - 1,
                views(parents@) == views(self.segments@).take(i as int),
            decreases n - 1 - i,
        {
            let seg = self.segments[i].clone();
            let ghost before = parents@;
            parents.push(seg);
            proof {
                lemma_views_push(before, seg);
                assert(views(self.segments@).take(i + 1) =~= views(self.segments@).take(
                    i as int,
                ).push(self.segments@[i as int]@));
            }
            i = i + 1;
        }
        assert(views(self.segments@).take((n - 1) as int) =~= self@.drop_last());
        joined(&parents, ".")
    }

    pub fn dotted(&self) -> (r: String)
        ensures
            r@ == dotted_of(self@),
    {
        joined(&self.segments, ".")
    }

    pub fn flag(&self) -> (r: String)
        ensures
            r@ == flag_of(self@),
    {
        let mut parts: Vec<String> = Vec::new();
        let mut i: usize = 0;
        while i < self.segments.len()
            invariant
                i <= self.segments.len(),
                views(parts@) == self@.take(i as int).map_values(
                    |s: Seq<char>| replace_char(s, '_', '-'),
                ),
            decreases self.segments.len() - i,
        {
            let part = replaced(self.segments[i].as_str(), '_', '-');
            let ghost before = parts@;
            parts.push(part);
            proof {
                lemma_views_push(before, part);
                assert(self@[i as int] == self.segments@[i as int]@);
                assert(self@.take(i + 1).map_values(|s: Seq<char>| replace_char(s, '_', '-'))
                    =~= self@.take(i as int).map_values(
                    |s: Seq<char>| replace_char(s, '_', '-'),
                ).push(replace_char(self@[i as int], '_', '-')));
            }
            i = i + 1;
        }
        assert(self@.take(i as int) =~= self@);
        let mut out = owned("--");
        let joined_parts = joined(&parts, "--");
        out.append(joined_parts.as_str());
        out
    }

    pub fn env(&self, app: &str) -> (r: String)
        ensures
            r@ == env_of(self@, app@),
    {
        let mut parts: Vec<String> = Vec::new();
        let mut i: usize = 0;
        while i < self.segments.len()
            invariant
                i <= self.segments.len(),
                views(parts@) == self@.take(i as int).map_values(|s: Seq<char>| upper(s)),
            decreases self.segments.len() - i,
        {
            let part = uppercase(self.segments[i].as_str());
            let ghost before = parts@;
            parts.push(part);
            proof {
                lemma_views_push(before, part);
                assert(self@[i as int] == self.segments@[i as int]@);
                assert(self@.take(i + 1).map_values(|s: Seq<char>| upper(s)) =~= self@.take(
                    i as int,
                ).map_values(|s: Seq<char>| upper(s)).push(upper(self@[i as int])));
            }
            i = i + 1;
        }
        assert(self@.take(i as int) =~= self@);
        let mut out = owned(app);
        out.append("_");
        let joined_parts = joined(&parts, "__");
        out.append(joined_parts.as_str());
        out
    }

    /// The rendering `Display` gives: the dotted key.
    pub fn to_string(&self) -> (r: String)
        ensures
            r@ == dotted_of(self@),
    {
        self.dotted()
    }

    /// Whether two paths name the same position.
    pub fn same(&self, other: &Path) -> (r: bool)
        ensures
            r == (self@ == other@),
    {
        let n = self.segments.len();
        if n != other.segments.len() {
            assert(self@.len() != other@.len());
            return false;
        }
        let mut i: usize = 0;
        while i < n
            invariant
                n == self.segments.len(),
                n == other.segments.len(),
                i <= n,
                forall|j: int| 0 <= j < i ==> self@[j] == other@[j],
            decreases n - i,
        {
            if !same(self.segments[i].as_str(), other.segments[i].as_str()) {
                assert(self@[i as int] != other@[i as int]);
                return false;
            }
            i = i + 1;
        }
        assert(self@ =~= other@);
        true
    }
}

} // verus!
