//! What an archive sink must add before a file: the directory entries of
//! the file's path that it has not added yet, each exactly once.
use vstd::prelude::*;
use crate::text::{from_chars, to_chars, views};

verus! {

/// The directory prefixes of `path`, each ending in `/`, shortest first:
/// `a/b/c` gives `a/` and `a/b/`.
pub open spec fn dir_prefixes(path: Seq<char>) -> Seq<Seq<char>>
    decreases path.len(),
{
    if path.len() == 0 {
        seq![]
    } else if path.last() == '/' {
        dir_prefixes(path.drop_last()).push(path)
    } else {
        dir_prefixes(path.drop_last())
    }
}

/// The directories already added to an archive.
pub struct DirectoryTracker {
    created: Vec<String>,
}

impl DirectoryTracker {
    /// The directories added so far.
    pub closed spec fn created(&self) -> Set<Seq<char>> {
        views(self.created@).to_set()
    }

    /// A tracker for an empty archive.
    pub fn new() -> (r: DirectoryTracker)
        ensures
            r.created() == Set::<Seq<char>>::empty(),
    {
        let r = DirectoryTracker { created: Vec::new() };
        assert(r.created() =~= Set::<Seq<char>>::empty());
        r
    }

    fn contains(&self, dir: &Vec<char>) -> (r: bool)
        ensures
            r == self.created().contains(dir@),
    {
        let d = from_chars(dir);
        let mut i: usize = 0;
        while i < self.created.len()
            invariant
                i <= self.created@.len(),
                d@ == dir@,
                forall|k: int| 0 <= k < i ==> self.created@[k]@ != dir@,
            decreases self.created@.len() - i,
        {
            if self.created[i] == d {
                assert(views(self.created@)[i as int] == dir@);
                return true;
            }
            i = i + 1;
        }
        assert(!views(self.created@).contains(dir@));
        false
    }

    /// The directory entries to add before the file at `path`: its
    /// directory prefixes that were not added before, shortest first. They
    /// count as added from now on.
    pub fn directories_for(&mut self, path: &str) -> (r: Vec<String>)
        ensures
            forall|i: int| 0 <= i < r@.len() ==> !old(self).created().contains(#[trigger] r@[i]@),
            forall|x: Seq<char>|
                #[trigger] dir_prefixes(path@).contains(x) ==> (old(self).created().contains(x)
                    || views(r@).contains(x)),
            forall|i: int| 0 <= i < r@.len() ==> dir_prefixes(path@).contains(#[trigger] r@[i]@),
            forall|i: int, j: int| 0 <= i < j < r@.len() ==> (#[trigger] r@[i])@.len() < (#[trigger] r@[j])@.len(),
            final(self).created() == old(self).created().union(dir_prefixes(path@).to_set()),
    {
        let chars = to_chars(path);
        let ghost start = self.created();
        let mut out: Vec<String> = Vec::new();
        let mut prefix: Vec<char> = Vec::new();
        let mut i: usize = 0;
        assert(chars@.subrange(0, 0) =~= Seq::<char>::empty());
        while i < chars.len()
            invariant
                chars@ == path@,
                i <= chars@.len(),
                prefix@ == chars@.subrange(0, i as int),
                forall|k: int| 0 <= k < out@.len() ==> (#[trigger] out@[k])@.len() <= i,
                forall|a: int, b: int| 0 <= a < b < out@.len() ==> (#[trigger] out@[a])@.len() < (#[trigger] out@[b])@.len(),
                forall|k: int| 0 <= k < out@.len() ==> !start.contains(#[trigger] out@[k]@),
                forall|k: int|
                    0 <= k < out@.len() ==> dir_prefixes(path@).contains(#[trigger] out@[k]@),
                forall|x: Seq<char>|
                    #[trigger] dir_prefixes(prefix@).contains(x) ==> (start.contains(x) || views(
                        out@,
                    ).contains(x)),
                self.created() == start.union(dir_prefixes(prefix@).to_set()),
            decreases chars@.len() - i,
        {
            proof {
                lemma_prefixes_of_prefix(path@, i as int + 1);
            }
            let c = chars[i];
            let ghost old_prefix = prefix@;
            let ghost old_out = views(out@);
            prefix.push(c);
            assert(prefix@ =~= chars@.subrange(0, i + 1));
            assert(prefix@.drop_last() =~= old_prefix);
            if c == '/' {
                let ghost before_created = self.created();
                proof {
                    assert(dir_prefixes(prefix@) == dir_prefixes(old_prefix).push(prefix@));
                    lemma_push_to_set(dir_prefixes(old_prefix), prefix@);
                    assert(start.union(dir_prefixes(prefix@).to_set()) =~= before_created.insert(prefix@));
                }
                if !self.contains(&prefix) {
                    let dir = from_chars(&prefix);
                    let ghost before = views(out@);
                    out.push(dir);
                    assert(views(out@) =~= before.push(prefix@));
                    assert(views(out@)[views(out@).len() - 1] == prefix@);
                    let ghost created_before = views(self.created@);
                    self.created.push(from_chars(&prefix));
                    assert(views(self.created@) =~= created_before.push(prefix@));
                    proof {
                        lemma_push_to_set(created_before, prefix@);
                    }
                } else {
                    assert(before_created.insert(prefix@) =~= before_created);
                    assert(start.contains(prefix@) || dir_prefixes(old_prefix).to_set().contains(prefix@));
                    assert(start.contains(prefix@) || dir_prefixes(old_prefix).contains(prefix@));
                }
            } else {
                assert(dir_prefixes(prefix@) == dir_prefixes(old_prefix));
            }
            assert(c == '/' ==> (start.contains(prefix@) || dir_prefixes(old_prefix).contains(prefix@)
                || views(out@).contains(prefix@)));
            proof {
                let ps = dir_prefixes(prefix@);
                if c == '/' {
                    assert(ps[ps.len() - 1] == prefix@);
                    assert(dir_prefixes(path@).contains(ps[ps.len() - 1]));
                }
                assert forall|x: Seq<char>| #[trigger] ps.contains(x) implies (start.contains(x)
                    || views(out@).contains(x)) by {
                    let k = choose|k: int| 0 <= k < ps.len() && ps[k] == x;
                    if k < dir_prefixes(old_prefix).len() {
                        assert(dir_prefixes(old_prefix)[k] == x);
                        assert(dir_prefixes(old_prefix).contains(x));
                        if old_out.contains(x) {
                            let j = choose|j: int| 0 <= j < old_out.len() && old_out[j] == x;
                            assert(views(out@)[j] == x);
                        }
                    } else {
                        assert(c == '/' && x == prefix@);
                        if !views(out@).contains(x) {
                            if dir_prefixes(old_prefix).contains(x) {
                                if old_out.contains(x) {
                                    let j = choose|j: int| 0 <= j < old_out.len() && old_out[j] == x;
                                    assert(views(out@)[j] == x);
                                }
                            }
                        }
                    }
                }
            }
            i = i + 1;
        }
        assert(prefix@ =~= path@);
        out
    }
}

proof fn lemma_push_to_set(s: Seq<Seq<char>>, x: Seq<char>)
    ensures
        s.push(x).to_set() == s.to_set().insert(x),
{
    assert forall|y: Seq<char>| #[trigger] s.push(x).to_set().contains(y) == s.to_set().insert(x).contains(y) by {
        if s.push(x).contains(y) {
            let k = choose|k: int| 0 <= k < s.push(x).len() && s.push(x)[k] == y;
            if k < s.len() {
                assert(s[k] == y);
            }
        }
        if s.contains(y) {
            let k = choose|k: int| 0 <= k < s.len() && s[k] == y;
            assert(s.push(x)[k] == y);
        }
        if y == x {
            assert(s.push(x)[s.len() as int] == y);
        }
    }
    assert(s.push(x).to_set() =~= s.to_set().insert(x));
}

proof fn lemma_prefixes_of_prefix(path: Seq<char>, n: int)
    requires
        0 <= n <= path.len(),
    ensures
        forall|k: int|
            0 <= k < dir_prefixes(path.subrange(0, n)).len() ==> dir_prefixes(path).contains(
                #[trigger] dir_prefixes(path.subrange(0, n))[k],
            ),
    decreases path.len() - n,
{
    if n < path.len() {
        lemma_prefixes_of_prefix(path, n + 1);
        let longer = path.subrange(0, n + 1);
        assert(longer.drop_last() =~= path.subrange(0, n));
        let short = dir_prefixes(path.subrange(0, n));
        let long = dir_prefixes(longer);
        assert forall|k: int| 0 <= k < short.len() implies long[k] == short[k] by {}
        assert forall|k: int| 0 <= k < short.len() implies dir_prefixes(path).contains(#[trigger] short[k]) by {
            assert(long[k] == short[k]);
            assert(dir_prefixes(path).contains(long[k]));
        }
    } else {
        assert(path.subrange(0, n) =~= path);
        assert forall|k: int| 0 <= k < dir_prefixes(path).len() implies dir_prefixes(path).contains(#[trigger] dir_prefixes(path)[k]) by {}
    }
}

} // verus!
