//! Where the sources of a program come from.

use crate::text::str_eq;
use vstd::prelude::*;

verus! {

/// What a resolver answers, as mathematical values: the canonical name
/// of a source and its text, or the reason why it cannot be read.
pub type Answer = Result<(Seq<char>, Seq<char>), Seq<char>>;

/// An answer of a resolver, by the texts that it holds.
pub open spec fn answer_of(resolved: Result<(String, String), String>) -> Answer {
    match resolved {
        Ok((name, text)) => Ok((name@, text@)),
        Err(e) => Err(e@),
    }
}

/// What reads the sources that a program includes.
pub trait SourceResolver {
    /// Whether `answer` is among the answers that the resolver may give
    /// to a request for `path`. A resolver that says nothing of its
    /// answers may give any.
    open spec fn may_answer(&self, path: Seq<char>, answer: Answer) -> bool {
        true
    }

    /// Finds the source that `path` names: its canonical name and its
    /// text, or the reason why it cannot be read. The answer is one that
    /// the resolver may give, and after it the resolver may give no
    /// answer that it could not give before.
    fn resolve(&mut self, path: &str) -> (r: Result<(String, String), String>)
        ensures
            old(self).may_answer(path@, answer_of(r)),
            forall|p: Seq<char>, a: Answer| #[trigger]
                final(self).may_answer(p, a) ==> old(self).may_answer(p, a),
    ;
}

/// The names of the sources that are being parsed, outermost first: a
/// source that includes one of them would include itself.
pub struct SourceResolverContext {
    path_stack: Vec<String>,
}

impl SourceResolverContext {
    /// The names of the sources that are being parsed, outermost first.
    pub closed spec fn stack(self) -> Seq<Seq<char>> {
        Seq::new(self.path_stack@.len(), |i: int| self.path_stack@[i]@)
    }

    /// A context in which no source is being parsed.
    pub fn new() -> (r: SourceResolverContext)
        ensures
            r.stack() == Seq::<Seq<char>>::empty(),
    {
        let r = SourceResolverContext { path_stack: Vec::new() };
        assert(r.stack() =~= Seq::<Seq<char>>::empty());
        r
    }

    /// Whether the source `path` is being parsed.
    pub fn is_active(&self, path: &str) -> (r: bool)
        ensures
            r == self.stack().contains(path@),
    {
        let mut i: usize = 0;
        while i < self.path_stack.len()
            invariant
                i <= self.path_stack@.len(),
                forall|k: int| 0 <= k < i ==> self.stack()[k] != path@,
            decreases self.path_stack@.len() - i,
        {
            if str_eq(self.path_stack[i].as_str(), path) {
                assert(self.stack()[i as int] == path@);
                return true;
            }
            i += 1;
        }
        false
    }

    /// Records that the source `path` is being parsed.
    pub fn push_current_file(&mut self, path: &str)
        ensures
            final(self).stack() == old(self).stack().push(path@),
    {
        self.path_stack.push(path.to_owned());
        assert(self.stack() =~= old(self).stack().push(path@));
    }

    /// Records that the innermost source has been parsed.
    pub fn pop_current_file(&mut self)
        ensures
            old(self).stack().len() > 0 ==> final(self).stack() == old(self).stack().drop_last(),
            old(self).stack().len() == 0 ==> final(self).stack() == old(self).stack(),
    {
        self.path_stack.pop();
        assert(old(self).stack().len() > 0 ==> self.stack() =~= old(self).stack().drop_last());
        assert(old(self).stack().len() == 0 ==> self.stack() =~= old(self).stack());
    }
}

/// A resolver over sources that are held in memory, each under its name.
pub struct InMemorySourceResolver {
    pub sources: Vec<(String, String)>,
}

impl InMemorySourceResolver {
    /// Whether the source `k` is the first of the name `path`.
    pub open spec fn first_named(self, k: int, path: Seq<char>) -> bool {
        &&& 0 <= k < self.sources@.len()
        &&& self.sources@[k].0@ == path
        &&& forall|j: int| 0 <= j < k ==> (#[trigger] self.sources@[j]).0@ != path
    }

    /// The answer to a request for `path`: the first source of that
    /// name, under that name, or that there is none.
    pub open spec fn answer_to(self, path: Seq<char>) -> Answer {
        if exists|k: int| self.first_named(k, path) {
            let k = choose|k: int| self.first_named(k, path);
            Ok((path, self.sources@[k].1@))
        } else {
            Err("no source of that name"@)
        }
    }

    /// A resolver over the given names and texts.
    pub fn new(sources: Vec<(String, String)>) -> (r: InMemorySourceResolver)
        ensures
            r.sources == sources,
    {
        InMemorySourceResolver { sources }
    }

    /// The index of the first source of the name `path`.
    pub fn find(&self, path: &str) -> (r: Option<usize>)
        ensures
            match r {
                Some(k) => k < self.sources@.len() && self.sources@[k as int].0@ == path@
                    && forall|j: int| 0 <= j < k ==> (#[trigger] self.sources@[j]).0@ != path@,
                None => forall|j: int|
                    0 <= j < self.sources@.len() ==> (#[trigger] self.sources@[j]).0@ != path@,
            },
    {
        let mut i: usize = 0;
        while i < self.sources.len()
            invariant
                i <= self.sources@.len(),
                forall|j: int| 0 <= j < i ==> (#[trigger] self.sources@[j]).0@ != path@,
            decreases self.sources@.len() - i,
        {
            if str_eq(self.sources[i].0.as_str(), path) {
                return Some(i);
            }
            i += 1;
        }
        None
    }
}

impl SourceResolver for InMemorySourceResolver {
    /// The one answer to a request for `path`.
    open spec fn may_answer(&self, path: Seq<char>, answer: Answer) -> bool {
        answer == self.answer_to(path)
    }

    /// The first source of the name `path`, under that name.
    fn resolve(&mut self, path: &str) -> (r: Result<(String, String), String>)
        ensures
            final(self).sources == old(self).sources,
            answer_of(r) == old(self).answer_to(path@),
    {
        match self.find(path) {
            Some(k) => {
                proof {
                    assert(self.first_named(k as int, path@));
                    let c = choose|c: int| self.first_named(c, path@);
                    if c < k {
                        assert(self.sources@[c].0@ != path@);
                    }
                    if k < c {
                        assert(self.sources@[k as int].0@ != path@);
                    }
                }
                Ok((self.sources[k].0.clone(), self.sources[k].1.clone()))
            },
            None => Err("no source of that name".to_owned()),
        }
    }
}

} // verus!
