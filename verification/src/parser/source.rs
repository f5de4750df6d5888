//! The tree of the sources of a program, and the map that addresses all
//! of them by one offset.

use crate::span::wrap_add;
use crate::span::add_wrapping;
use crate::text::byte_len;
use crate::text::str_eq;
use vstd::prelude::*;

verus! {

/// One source of a map: its name, its text, and the offset of its first
/// byte in the concatenation of all sources.
#[derive(Debug, PartialEq, Eq)]
pub struct Source {
    pub name: String,
    pub contents: String,
    pub offset: u32,
}

/// The sources of a program one after the other, so that one offset
/// addresses a byte of any of them.
#[derive(Debug, PartialEq, Eq)]
pub struct SourceMap {
    pub sources: Vec<Source>,
}

/// The length in bytes of a text, wrapped at 32 bits.
pub open spec fn short_len(text: Seq<char>) -> u32 {
    byte_len(text) as u32
}

/// The offset of the source `k` among sources of the given texts: the
/// sum of the lengths of the sources before it, wrapped at 32 bits.
pub open spec fn start_offset(texts: Seq<Seq<char>>, k: int) -> u32
    decreases k,
{
    if k <= 0 {
        0
    } else {
        wrap_add(start_offset(texts, k - 1), short_len(texts[k - 1]))
    }
}

/// The length in bytes of `text`, wrapped at 32 bits.
fn len_of(text: &str) -> (r: u32)
    ensures
        r == short_len(text@),
        byte_len(text@) <= u32::MAX ==> r == byte_len(text@),
{
    let len = text.as_bytes().len();
    #[verifier::truncate]
    (len as u32)
}

impl SourceMap {
    /// The texts of the sources, in order.
    pub open spec fn texts(self) -> Seq<Seq<char>> {
        Seq::new(self.sources@.len(), |i: int| self.sources@[i].contents@)
    }

    /// The names of the sources, in order.
    pub open spec fn names(self) -> Seq<Seq<char>> {
        Seq::new(self.sources@.len(), |i: int| self.sources@[i].name@)
    }

    /// Every source starts where the one before it ends; the first starts
    /// at zero.
    pub open spec fn wf(self) -> bool {
        forall|k: int|
            0 <= k < self.sources@.len() ==> (#[trigger] self.sources@[k]).offset == start_offset(
                self.texts(),
                k,
            )
    }

    /// Whether `k` is the first source of the name `name`.
    pub open spec fn first_named(self, k: int, name: Seq<char>) -> bool {
        &&& 0 <= k < self.sources@.len()
        &&& self.sources@[k].name@ == name
        &&& forall|j: int| 0 <= j < k ==> (#[trigger] self.sources@[j]).name@ != name
    }

    /// Whether `k` is the last source that starts at or before `offset`.
    pub open spec fn last_before(self, k: int, offset: u32) -> bool {
        &&& 0 <= k < self.sources@.len()
        &&& self.sources@[k].offset <= offset
        &&& forall|j: int|
            k < j < self.sources@.len() ==> (#[trigger] self.sources@[j]).offset > offset
    }

    /// The offset that the spans of the source `name` are moved by: the
    /// offset of the first source of that name, zero if there is none.
    pub open spec fn offset_of(self, name: Seq<char>) -> u32 {
        if exists|k: int| self.first_named(k, name) {
            self.sources@[choose|k: int| self.first_named(k, name)].offset
        } else {
            0
        }
    }

    /// The map of the sources with the given names and texts, in order.
    pub fn new(files: Vec<(String, String)>) -> (r: SourceMap)
        ensures
            r.wf(),
            r.sources@.len() == files@.len(),
            forall|k: int|
                0 <= k < files@.len() ==> (#[trigger] r.sources@[k]).name@ == files@[k].0@
                    && r.sources@[k].contents@ == files@[k].1@,
    {
        let ghost n = files@.len() as int;
        let mut rest = crate::parser::offset::reversed(files);
        let mut sources: Vec<Source> = Vec::new();
        let mut offset: u32 = 0;
        while rest.len() > 0
            invariant
                n == files@.len(),
                rest@.len() + sources@.len() == n,
                forall|i: int| 0 <= i < rest@.len() ==> rest@[i] == files@[n - 1 - i],
                forall|k: int|
                    0 <= k < sources@.len() ==> (#[trigger] sources@[k]).name@ == files@[k].0@
                        && sources@[k].contents@ == files@[k].1@,
                forall|k: int|
                    0 <= k < sources@.len() ==> (#[trigger] sources@[k]).offset == start_offset(
                        Seq::new(sources@.len(), |i: int| sources@[i].contents@),
                        k,
                    ),
                offset == start_offset(
                    Seq::new(sources@.len(), |i: int| sources@[i].contents@),
                    sources@.len() as int,
                ),
            decreases rest@.len(),
        {
            let ghost before = Seq::new(sources@.len(), |i: int| sources@[i].contents@);
            let ghost old_sources = sources@;
            let (name, contents) = rest.pop().unwrap();
            let len = len_of(contents.as_str());
            sources.push(Source { name, contents, offset });
            let ghost after = Seq::new(sources@.len(), |i: int| sources@[i].contents@);
            proof {
                assert forall|k: int| 0 <= k <= old_sources.len() implies start_offset(after, k)
                    == start_offset(before, k) by {
                    lemma_start_offset_prefix(before, after, k);
                }
                assert forall|k: int| 0 <= k < sources@.len() implies (#[trigger] sources@[k]).offset
                    == start_offset(after, k) by {
                    if k < old_sources.len() {
                        assert(sources@[k] == old_sources[k]);
                    }
                }
            }
            offset = add_wrapping(offset, len);
        }
        SourceMap { sources }
    }

    /// The first source of the name `name`.
    pub fn find_by_name(&self, name: &str) -> (r: Option<&Source>)
        ensures
            match r {
                Some(source) => exists|k: int|
                    self.first_named(k, name@) && self.sources@[k] == *source,
                None => forall|k: int|
                    0 <= k < self.sources@.len() ==> (#[trigger] self.sources@[k]).name@ != name@,
            },
    {
        let mut i: usize = 0;
        while i < self.sources.len()
            invariant
                i <= self.sources@.len(),
                forall|k: int| 0 <= k < i ==> (#[trigger] self.sources@[k]).name@ != name@,
            decreases self.sources@.len() - i,
        {
            if str_eq(self.sources[i].name.as_str(), name) {
                assert(self.first_named(i as int, name@));
                return Some(&self.sources[i]);
            }
            i += 1;
        }
        None
    }

    /// The offset that the spans of the source `name` are moved by.
    pub fn offset_for(&self, name: &str) -> (r: u32)
        ensures
            r == self.offset_of(name@),
    {
        match self.find_by_name(name) {
            Some(source) => {
                proof {
                    let k = choose|k: int| self.first_named(k, name@) && self.sources@[k] == *source;
                    let c = choose|k: int| self.first_named(k, name@);
                    assert(self.first_named(k, name@));
                    if c < k {
                        assert(self.sources@[c].name@ != name@);
                    }
                    if k < c {
                        assert(self.sources@[k].name@ != name@);
                    }
                }
                source.offset
            },
            None => {
                proof {
                    if exists|k: int| self.first_named(k, name@) {
                        let c = choose|k: int| self.first_named(k, name@);
                        assert(self.sources@[c].name@ != name@);
                    }
                }
                0
            },
        }
    }

    /// The source that holds the byte at `offset`: the last one that
    /// starts at or before it.
    pub fn find_by_offset(&self, offset: u32) -> (r: Option<&Source>)
        ensures
            match r {
                Some(source) => exists|k: int|
                    self.last_before(k, offset) && self.sources@[k] == *source,
                None => forall|k: int|
                    0 <= k < self.sources@.len() ==> (#[trigger] self.sources@[k]).offset > offset,
            },
    {
        let mut i = self.sources.len();
        while i > 0
            invariant
                i <= self.sources@.len(),
                forall|k: int|
                    i <= k < self.sources@.len() ==> (#[trigger] self.sources@[k]).offset > offset,
            decreases i,
        {
            i -= 1;
            if self.sources[i].offset <= offset {
                assert(self.last_before(i as int, offset));
                return Some(&self.sources[i]);
            }
        }
        None
    }
}

/// The sum of the lengths in bytes of the texts.
pub open spec fn total_len(texts: Seq<Seq<char>>) -> nat
    decreases texts.len(),
{
    if texts.len() == 0 {
        0
    } else {
        total_len(texts.drop_last()) + byte_len(texts.last())
    }
}

/// As long as the sources before it take no more than 4 GiB, a source
/// starts at the sum of their lengths: the spans of a source are moved by
/// the combined length of the sources that come before it.
pub proof fn lemma_start_offset_is_sum(texts: Seq<Seq<char>>, k: int)
    requires
        0 <= k <= texts.len(),
        total_len(texts.take(k)) <= u32::MAX,
    ensures
        start_offset(texts, k) == total_len(texts.take(k)),
    decreases k,
{
    if k > 0 {
        assert(texts.take(k).drop_last() =~= texts.take(k - 1));
        assert(texts.take(k).last() == texts[k - 1]);
        lemma_start_offset_is_sum(texts, k - 1);
    } else {
        assert(texts.take(0) =~= Seq::<Seq<char>>::empty());
    }
}

/// The offsets of the first sources do not depend on the sources after
/// them.
pub proof fn lemma_start_offset_prefix(a: Seq<Seq<char>>, b: Seq<Seq<char>>, k: int)
    requires
        0 <= k <= a.len() <= b.len(),
        forall|i: int| 0 <= i < a.len() ==> a[i] == b[i],
    ensures
        start_offset(a, k) == start_offset(b, k),
    decreases k,
{
    if k > 0 {
        lemma_start_offset_prefix(a, b, k - 1);
    }
}

} // verus!
