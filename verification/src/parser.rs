//! Parsing of a source and of the sources that it includes, and the map
//! of all sources that spans are addressed in.

pub mod ast;
pub mod error;
pub mod expr;
pub mod grammar;
pub mod laws;
pub mod lit;
pub mod offset;
pub mod precedence;
pub mod prgm;
pub mod prim;
pub mod scan;
pub mod source;

use crate::io::answer_of;
use crate::io::InMemorySourceResolver;
use crate::io::Answer;
use crate::io::SourceResolver;
use crate::io::SourceResolverContext;
use crate::lexer::lex_texts;
use crate::lexer::lex_tokens;
use crate::parser::ast::Program;
use crate::parser::ast::ProgramView;
use crate::parser::error::Error;
use crate::parser::prgm::g_program;
use crate::parser::scan::Input;
use crate::parser::scan::ParserContext;
use crate::parser::scan::State;
use crate::parser::ast::stmt_views;
use crate::parser::ast::StmtKind;
use crate::parser::ast::StmtKindView;
use crate::parser::ast::StmtView;
use crate::parser::error::ErrorKind;
use crate::parser::offset::offset_program;
use crate::parser::offset::reversed;
use crate::parser::offset::shift_program;
use crate::parser::source::lemma_start_offset_is_sum;
use crate::parser::source::total_len;
use crate::parser::source::SourceMap;
use crate::span::Span;
use crate::text::byte_len;
use crate::text::lemma_byte_len_at_least;
use crate::text::str_eq;
use vstd::prelude::*;

verus! {

/// The program that a source is parsed to, with the errors found.
pub open spec fn parse_spec(input: Seq<char>) -> (ProgramView, Seq<Error>) {
    let inp = Input { tokens: lex_tokens(input, 0), lexemes: lex_texts(input, 0) };
    let (end, program) = g_program(inp, State { pos: 0, offset: 0, errors: Seq::empty() });
    (program, end.errors)
}

/// Parses one source. The parser recovers from errors: every statement
/// that cannot be parsed adds an error and stands as unparsed in the
/// program.
pub fn parse(input: &str) -> (r: (Program, Vec<Error>))
    requires
        byte_len(input@) <= u32::MAX,
    ensures
        (r.0@, r.1@) == parse_spec(input@),
{
    let mut scanner = ParserContext::new(input);
    let program = prgm::parse(&mut scanner);
    (program, scanner.into_errors())
}

/// A source that was parsed, with the sources that it includes.
pub struct QasmSource {
    /// The name of the source; it need not be the name of a file.
    path: String,
    /// The text of the source.
    source: String,
    /// The program that the text was parsed to.
    program: Program,
    /// The errors of the parse.
    errors: Vec<Error>,
    /// The sources that the program includes, in the order of the
    /// statements that include them.
    included: Vec<QasmSource>,
}

/// What a value of `QasmSource` holds, as mathematical values.
pub struct QasmSourceView {
    pub path: Seq<char>,
    pub source: Seq<char>,
    pub program: ProgramView,
    pub errors: Seq<Error>,
    pub included: Seq<QasmSourceView>,
}

/// The views of a list of sources.
pub closed spec fn source_views(items: Seq<QasmSource>) -> Seq<QasmSourceView>
    decreases items,
{
    if items.len() == 0 {
        Seq::empty()
    } else {
        source_views(items.drop_last()).push(items.last().view())
    }
}

impl View for QasmSource {
    type V = QasmSourceView;

    closed spec fn view(&self) -> QasmSourceView
        decreases self,
    {
        QasmSourceView {
            path: self.path@,
            source: self.source@,
            program: self.program@,
            errors: self.errors@,
            included: source_views(self.included@),
        }
    }
}

/// The views of a list are the views of its entries.
pub proof fn lemma_source_views(items: Seq<QasmSource>)
    ensures
        source_views(items).len() == items.len(),
        forall|i: int| 0 <= i < items.len() ==> (#[trigger] source_views(items)[i]) == items[i].view(),
    decreases items.len(),
{
    if items.len() > 0 {
        lemma_source_views(items.drop_last());
        let rest = source_views(items.drop_last());
        assert(source_views(items) == rest.push(items.last().view()));
        assert forall|i: int| 0 <= i < items.len() implies (#[trigger] source_views(items)[i])
            == items[i].view() by {
            if i < items.len() - 1 {
                assert(rest[i] == items.drop_last()[i].view());
            }
        }
    } else {
        assert(source_views(items) == Seq::<QasmSourceView>::empty());
    }
}

/// The view of a list with one more source.
pub proof fn lemma_source_views_push(items: Seq<QasmSource>, x: QasmSource)
    ensures
        source_views(items.push(x)) == source_views(items).push(x@),
{
    assert(items.push(x).drop_last() =~= items);
}

/// Whether the source or one that it includes, directly or not, has an
/// error.
pub open spec fn tree_has_errors(v: QasmSourceView) -> bool
    decreases v,
{
    v.errors.len() > 0 || any_has_errors(v.included)
}

/// Whether one of the sources has an error.
pub open spec fn any_has_errors(items: Seq<QasmSourceView>) -> bool
    decreases items,
{
    if items.len() == 0 {
        false
    } else {
        any_has_errors(items.drop_last()) || tree_has_errors(items.last())
    }
}

/// The errors of the source, then those of the sources that it includes,
/// in order.
pub open spec fn tree_errors(v: QasmSourceView) -> Seq<Error>
    decreases v,
{
    v.errors + list_errors(v.included)
}

/// The errors of the sources, in order.
pub open spec fn list_errors(items: Seq<QasmSourceView>) -> Seq<Error>
    decreases items,
{
    if items.len() == 0 {
        Seq::empty()
    } else {
        list_errors(items.drop_last()) + tree_errors(items.last())
    }
}

/// The name and the text of the source, then those of the sources that
/// it includes, depth first.
pub open spec fn flatten(v: QasmSourceView) -> Seq<(Seq<char>, Seq<char>)>
    decreases v,
{
    seq![(v.path, v.source)] + flatten_all(v.included)
}

/// The names and the texts of the sources, depth first.
pub open spec fn flatten_all(items: Seq<QasmSourceView>) -> Seq<(Seq<char>, Seq<char>)>
    decreases items,
{
    if items.len() == 0 {
        Seq::empty()
    } else {
        flatten_all(items.drop_last()) + flatten(items.last())
    }
}

/// The names and the texts of a list of files.
pub open spec fn file_views(files: Seq<(String, String)>) -> Seq<(Seq<char>, Seq<char>)> {
    Seq::new(files.len(), |i: int| (files[i].0@, files[i].1@))
}

impl QasmSource {
    /// A source with the program it was parsed to, the errors of the
    /// parse, and the sources it includes.
    pub fn new(
        source: &str,
        file_path: &str,
        program: Program,
        errors: Vec<Error>,
        included: Vec<QasmSource>,
    ) -> (r: QasmSource)
        ensures
            r@ == (QasmSourceView {
                path: file_path@,
                source: source@,
                program: program@,
                errors: errors@,
                included: source_views(included@),
            }),
    {
        QasmSource {
            path: file_path.to_owned(),
            source: source.to_owned(),
            program,
            errors,
            included,
        }
    }

    /// Whether the source or one that it includes, directly or not, has
    /// an error.
    pub fn has_errors(&self) -> (r: bool)
        ensures
            r == tree_has_errors(self@),
        decreases self,
    {
        if self.errors.len() > 0 {
            return true;
        }
        let mut i: usize = 0;
        proof {
            assert(self.included@.take(0) =~= Seq::empty());
        }
        while i < self.included.len()
            invariant
                i <= self.included@.len(),
                !any_has_errors(source_views(self.included@.take(i as int))),
            decreases self.included@.len() - i,
        {
            proof {
                assert(self.included@.take(i + 1).drop_last() =~= self.included@.take(i as int));
                lemma_source_views_push(self.included@.take(i as int), self.included@[i as int]);
                assert(self.included@.take(i as int).push(self.included@[i as int])
                    =~= self.included@.take(i + 1));
                let views = source_views(self.included@.take(i + 1));
                assert(views.drop_last() =~= source_views(self.included@.take(i as int)));
            }
            if self.included[i].has_errors() {
                proof {
                    lemma_any_has_errors_grows(
                        source_views(self.included@),
                        source_views(self.included@.take(i + 1)),
                        i + 1,
                        self.included@,
                    );
                }
                return true;
            }
            i += 1;
        }
        proof {
            assert(self.included@.take(i as int) =~= self.included@);
        }
        false
    }

    /// The errors of the source, then those of the sources that it
    /// includes, in order.
    pub fn all_errors(&self) -> (r: Vec<Error>)
        ensures
            r@ == tree_errors(self@),
        decreases self,
    {
        let mut out = self.errors();
        let mut i: usize = 0;
        proof {
            assert(self.included@.take(0) =~= Seq::empty());
            assert(out@ + Seq::<Error>::empty() =~= out@);
        }
        while i < self.included.len()
            invariant
                i <= self.included@.len(),
                out@ == self.errors@ + list_errors(source_views(self.included@.take(i as int))),
            decreases self.included@.len() - i,
        {
            let mut more = self.included[i].all_errors();
            let ghost before = out@;
            let ghost added = more@;
            proof {
                lemma_source_views_push(self.included@.take(i as int), self.included@[i as int]);
                assert(self.included@.take(i as int).push(self.included@[i as int])
                    =~= self.included@.take(i + 1));
                let views = source_views(self.included@.take(i + 1));
                assert(views.drop_last() =~= source_views(self.included@.take(i as int)));
            }
            out.append(&mut more);
            proof {
                assert(out@ =~= self.errors@ + (list_errors(
                    source_views(self.included@.take(i as int)),
                ) + added));
            }
            i += 1;
        }
        proof {
            assert(self.included@.take(i as int) =~= self.included@);
        }
        out
    }

    /// The sources that the program includes.
    pub fn includes(&self) -> (r: &Vec<QasmSource>)
        ensures
            source_views(r@) == self@.included,
    {
        &self.included
    }

    /// The sources that the program includes, to change them.
    pub fn includes_mut(&mut self) -> (r: &mut Vec<QasmSource>)
        ensures
            source_views(r@) == old(self)@.included,
            final(self)@ == (QasmSourceView {
                path: old(self)@.path,
                source: old(self)@.source,
                program: old(self)@.program,
                errors: old(self)@.errors,
                included: source_views(final(r)@),
            }),
    {
        &mut self.included
    }

    /// The program that the text was parsed to.
    pub fn program(&self) -> (r: &Program)
        ensures
            r@ == self@.program,
    {
        &self.program
    }

    /// The name of the source.
    pub fn path(&self) -> (r: String)
        ensures
            r@ == self@.path,
    {
        self.path.clone()
    }

    /// The errors of the parse of this source alone.
    pub fn errors(&self) -> (r: Vec<Error>)
        ensures
            r@ == self@.errors,
    {
        let mut out: Vec<Error> = Vec::new();
        let mut i: usize = 0;
        while i < self.errors.len()
            invariant
                i <= self.errors@.len(),
                out@ == self.errors@.take(i as int),
            decreases self.errors@.len() - i,
        {
            out.push(self.errors[i].clone());
            proof {
                assert(self.errors@.take(i + 1) =~= self.errors@.take(i as int).push(
                    self.errors@[i as int],
                ));
            }
            i += 1;
        }
        proof {
            assert(self.errors@.take(i as int) =~= self.errors@);
        }
        out
    }

    /// The text of the source.
    pub fn source(&self) -> (r: &str)
        ensures
            r@ == self@.source,
    {
        self.source.as_str()
    }
}

/// A source among the first has an error only if one among all has.
proof fn lemma_any_has_errors_grows(
    all: Seq<QasmSourceView>,
    some: Seq<QasmSourceView>,
    k: int,
    items: Seq<QasmSource>,
)
    requires
        0 <= k <= items.len(),
        all == source_views(items),
        some == source_views(items.take(k)),
        any_has_errors(some),
    ensures
        any_has_errors(all),
    decreases items.len() - k,
{
    if k < items.len() {
        lemma_source_views_push(items.take(k), items[k]);
        assert(items.take(k).push(items[k]) =~= items.take(k + 1));
        let next = source_views(items.take(k + 1));
        assert(next.drop_last() =~= some);
        lemma_any_has_errors_grows(all, next, k + 1, items);
    } else {
        assert(items.take(k) =~= items);
    }
}

/// Adds the name and the text of the source, then those of the sources
/// that it includes, depth first.
pub fn collect_source_files(source: &QasmSource, files: &mut Vec<(String, String)>)
    ensures
        file_views(final(files)@) == file_views(old(files)@) + flatten(source@),
    decreases source,
{
    let ghost start = file_views(files@);
    files.push((source.path(), source.source().to_owned()));
    proof {
        assert(file_views(files@) =~= start + seq![(source@.path, source@.source)]);
        assert(source.included@.take(0) =~= Seq::empty());
        assert(file_views(files@) =~= start + (seq![(source@.path, source@.source)]
            + Seq::<(Seq<char>, Seq<char>)>::empty()));
    }
    let mut i: usize = 0;
    while i < source.included.len()
        invariant
            i <= source.included@.len(),
            file_views(files@) == start + (seq![(source@.path, source@.source)] + flatten_all(
                source_views(source.included@.take(i as int)),
            )),
        decreases source.included@.len() - i,
    {
        let ghost before = file_views(files@);
        proof {
            lemma_source_views_push(source.included@.take(i as int), source.included@[i as int]);
            assert(source.included@.take(i as int).push(source.included@[i as int])
                =~= source.included@.take(i + 1));
            let views = source_views(source.included@.take(i + 1));
            assert(views.drop_last() =~= source_views(source.included@.take(i as int)));
        }
        collect_source_files(&source.included[i], files);
        proof {
            let done = flatten_all(source_views(source.included@.take(i as int)));
            let more = flatten(source.included@[i as int]@);
            assert(file_views(files@) =~= start + (seq![(source@.path, source@.source)] + (done
                + more)));
        }
        i += 1;
    }
    proof {
        assert(source.included@.take(i as int) =~= source.included@);
    }
}

/// The map of the source and of all sources that it includes, depth
/// first: the source itself comes first, then each included source
/// followed by what it includes.
pub fn create_source_map(source: &QasmSource) -> (r: SourceMap)
    ensures
        r.wf(),
        r.sources@.len() == flatten(source@).len(),
        forall|k: int|
            0 <= k < r.sources@.len() ==> (#[trigger] r.sources@[k]).name@ == flatten(source@)[k].0
                && r.sources@[k].contents@ == flatten(source@)[k].1,
{
    let mut files: Vec<(String, String)> = Vec::new();
    proof {
        assert(file_views(files@) + flatten(source@) =~= flatten(source@));
    }
    collect_source_files(source, &mut files);
    let ghost views = file_views(files@);
    let map = SourceMap::new(files);
    proof {
        assert forall|k: int| 0 <= k < map.sources@.len() implies (#[trigger] map.sources@[k]).name@
            == flatten(source@)[k].0 && map.sources@[k].contents@ == flatten(source@)[k].1 by {
            assert(views[k] == flatten(source@)[k]);
        }
    }
    map
}

/// The depth to which sources may include one another.
pub const INCLUDE_DEPTH_LIMIT: usize = 255;

/// The text that `str::to_lowercase` makes of a text.
pub uninterp spec fn lowercase_of(s: Seq<char>) -> Seq<char>;

/// `str::to_lowercase`: the text with every letter in lower case.
#[verifier::external_body]
fn to_lowercase(s: &str) -> (r: String)
    ensures
        r@ == lowercase_of(s@),
{
    s.to_lowercase()
}

/// Whether a name in lower case is the name of the standard gate library.
pub open spec fn is_std_name(lowered: Seq<char>) -> bool {
    lowered == "stdgates.inc"@ || lowered == "qiskit_stdgates.inc"@
}

/// Whether `name` names the standard gate library, in any case: that
/// source is not read, the compiler supplies its gates.
pub open spec fn is_std_include_name(name: Seq<char>) -> bool {
    is_std_name(lowercase_of(name))
}

/// Whether a name in lower case is the name of the standard gate library.
pub fn is_std_lowered(lowered: &str) -> (r: bool)
    ensures
        r == is_std_name(lowered@),
{
    str_eq(lowered, "stdgates.inc") || str_eq(lowered, "qiskit_stdgates.inc")
}

/// Whether `name` names the standard gate library, in any case.
pub fn is_std_include(name: &str) -> (r: bool)
    ensures
        r == is_std_include_name(name@),
{
    let lowered = to_lowercase(name);
    is_std_lowered(lowered.as_str())
}

/// The names of the sources that the statements include, in order,
/// without the standard gate library.
pub open spec fn include_names(stmts: Seq<StmtView>) -> Seq<Seq<char>>
    decreases stmts.len(),
{
    if stmts.len() == 0 {
        Seq::empty()
    } else {
        let rest = include_names(stmts.drop_last());
        match stmts.last().kind {
            StmtKindView::Include(inc) => if is_std_include_name(inc.filename) {
                rest
            } else {
                rest.push(inc.filename)
            },
            _ => rest,
        }
    }
}

/// The program without statements.
pub open spec fn empty_program() -> ProgramView {
    ProgramView { span: Span { lo: 0, hi: 0 }, statements: Seq::empty(), version: None }
}

/// Whether `v` stands for a source that was not parsed: it has no text,
/// the empty program, no included sources, and one error, which says
/// `message` and has no hint.
pub open spec fn failed(v: QasmSourceView, message: Seq<char>) -> bool {
    &&& v.source.len() == 0
    &&& v.program == empty_program()
    &&& v.included.len() == 0
    &&& v.errors.len() == 1
    &&& v.errors[0].1 is None
    &&& v.errors[0].0 matches ErrorKind::IO(m)
    &&& m@ == message
}

/// Whether `v` holds the parse of its text, and an included source for
/// each of the inclusions in its program.
pub open spec fn parsed(v: QasmSourceView) -> bool {
    &&& byte_len(v.source) <= u32::MAX
    &&& (v.program, v.errors) == parse_spec(v.source)
    &&& v.included.len() == include_names(v.program.statements).len()
}

/// The answers that the resolver may give to each request.
pub open spec fn answers_of<R: SourceResolver>(resolver: R) -> spec_fn(Seq<char>, Answer) -> bool {
    |path: Seq<char>, answer: Answer| resolver.may_answer(path, answer)
}

/// Whether every answer that `after` may give is one that `before` may
/// give.
pub open spec fn narrowed<R: SourceResolver>(before: R, after: R) -> bool {
    forall|path: Seq<char>, answer: Answer| #[trigger]
        after.may_answer(path, answer) ==> before.may_answer(path, answer)
}

/// Whether every answer of `may` is one of `wider`.
pub open spec fn within(
    may: spec_fn(Seq<char>, Answer) -> bool,
    wider: spec_fn(Seq<char>, Answer) -> bool,
) -> bool {
    forall|path: Seq<char>, answer: Answer| #[trigger] may(path, answer) ==> wider(path, answer)
}

/// The reason that a source that was not parsed gives.
pub open spec fn reason(v: QasmSourceView) -> Seq<char> {
    match v.errors[0].0 {
        ErrorKind::IO(m) => m@,
        _ => Seq::empty(),
    }
}

/// Whether a text under the name `path` is among the answers to a
/// request for `name`: one of 4 GiB or more if `large`, else any.
pub open spec fn may_give(
    may: spec_fn(Seq<char>, Answer) -> bool,
    name: Seq<char>,
    path: Seq<char>,
    large: bool,
) -> bool {
    exists|text: Seq<char>| #[trigger]
        may(name, Ok((path, text))) && (large ==> byte_len(text) > u32::MAX)
}

/// Whether `v` is the tree of a source whose inclusions were resolved
/// by a resolver with the answers `may`, while the sources of `stack`
/// were being parsed and `depth` more levels of inclusion were allowed.
/// The source either was not parsed, or holds the parse of its text and,
/// for each inclusion of its program, in the order of the statements,
/// what an answer of the resolver to the name of that inclusion amounts
/// to.
pub open spec fn consistent(
    v: QasmSourceView,
    may: spec_fn(Seq<char>, Answer) -> bool,
    stack: Seq<Seq<char>>,
    depth: usize,
) -> bool
    decreases v, 0int,
{
    (exists|message: Seq<char>| failed(v, message)) || (parsed(v) && forall|k: int|
        0 <= k < v.included.len() ==> included_under(
            #[trigger] v.included[k],
            include_names(v.program.statements)[k],
            may,
            stack,
            depth,
        ))
}

/// Whether `v` is what an answer of the resolver to the request for
/// `name` amounts to.
///
/// - The resolver refused: `v` was not parsed and stands under the name
///   `name`, with the reason as its error.
/// - The resolver gave a text under a name, which is the name of `v`. If
///   no more level is allowed, if a source of that name is being parsed,
///   or if the text has 4 GiB or more, `v` was not parsed and its error
///   says so. Else `v` holds the parse of the text, and its own
///   inclusions were resolved with its name added to the sources that
///   are being parsed and one level less allowed.
pub open spec fn included_under(
    v: QasmSourceView,
    name: Seq<char>,
    may: spec_fn(Seq<char>, Answer) -> bool,
    stack: Seq<Seq<char>>,
    depth: usize,
) -> bool
    decreases v, 1int,
{
    ||| failed(v, reason(v)) && v.path == name && may(name, Err(reason(v)))
    ||| depth == 0 && failed(v, "includes are nested too deeply"@) && may_give(
        may,
        name,
        v.path,
        false,
    )
    ||| depth > 0 && stack.contains(v.path) && failed(v, "cyclic include"@) && may_give(
        may,
        name,
        v.path,
        false,
    )
    ||| depth > 0 && !stack.contains(v.path) && failed(v, "source is too large"@) && may_give(
        may,
        name,
        v.path,
        true,
    )
    ||| depth > 0 && !stack.contains(v.path) && parsed(v) && may(name, Ok((v.path, v.source)))
        && consistent(v, may, stack.push(v.path), (depth - 1) as usize)
}

/// Whether `v` is what some answer of the resolver to the request for
/// `name` amounts to.
pub open spec fn included_as(
    v: QasmSourceView,
    name: Seq<char>,
    may: spec_fn(Seq<char>, Answer) -> bool,
    stack: Seq<Seq<char>>,
    depth: usize,
) -> bool {
    exists|resolved: Answer|
        may(name, resolved) && #[trigger] resolution_of(v, name, resolved, may, stack, depth)
}

/// What the answer `resolved` amounts to is what an answer amounts to.
pub proof fn lemma_resolution_is_included(
    v: QasmSourceView,
    name: Seq<char>,
    resolved: Answer,
    may: spec_fn(Seq<char>, Answer) -> bool,
    stack: Seq<Seq<char>>,
    depth: usize,
)
    requires
        may(name, resolved),
        resolution_of(v, name, resolved, may, stack, depth),
    ensures
        included_under(v, name, may, stack, depth),
{
    match resolved {
        Err(e) => {
            assert(failed(v, e));
            assert(reason(v) == e);
        },
        Ok((path, text)) => {
            assert(may(name, Ok((path, text))));
            if depth > 0 && !stack.contains(path) && byte_len(text) > u32::MAX {
                assert(may_give(may, name, v.path, true));
            } else if depth == 0 || stack.contains(path) {
                assert(may_give(may, name, v.path, false));
            }
        },
    }
}

/// A source is included under a name exactly if it is what some answer
/// of the resolver to the request for that name amounts to: the two
/// statements of an inclusion say the same.
pub proof fn lemma_included_is_a_resolution(
    v: QasmSourceView,
    name: Seq<char>,
    may: spec_fn(Seq<char>, Answer) -> bool,
    stack: Seq<Seq<char>>,
    depth: usize,
)
    ensures
        included_under(v, name, may, stack, depth) == included_as(v, name, may, stack, depth),
{
    if included_as(v, name, may, stack, depth) {
        let w = choose|resolved: Answer|
            may(name, resolved) && #[trigger] resolution_of(v, name, resolved, may, stack, depth);
        lemma_resolution_is_included(v, name, w, may, stack, depth);
    }
    if included_under(v, name, may, stack, depth) {
        if failed(v, reason(v)) && v.path == name && may(name, Err(reason(v))) {
            assert(resolution_of(v, name, Err(reason(v)), may, stack, depth));
        } else if depth == 0 || stack.contains(v.path) {
            let text = choose|text: Seq<char>| #[trigger] may(name, Ok((v.path, text)));
            assert(resolution_of(v, name, Ok((v.path, text)), may, stack, depth));
        } else if parsed(v) && may(name, Ok((v.path, v.source))) && consistent(
            v,
            may,
            stack.push(v.path),
            (depth - 1) as usize,
        ) {
            assert(resolution_of(v, name, Ok((v.path, v.source)), may, stack, depth));
        } else {
            let text = choose|text: Seq<char>| #[trigger]
                may(name, Ok((v.path, text))) && byte_len(text) > u32::MAX;
            assert(resolution_of(v, name, Ok((v.path, text)), may, stack, depth));
        }
    }
}

/// What holds of a tree for the answers of one resolver holds for those
/// of every resolver that may give these answers too.
pub proof fn lemma_consistent_widens(
    v: QasmSourceView,
    may: spec_fn(Seq<char>, Answer) -> bool,
    wider: spec_fn(Seq<char>, Answer) -> bool,
    stack: Seq<Seq<char>>,
    depth: usize,
)
    requires
        within(may, wider),
        consistent(v, may, stack, depth),
    ensures
        consistent(v, wider, stack, depth),
    decreases v, 0int,
{
    if !(exists|message: Seq<char>| failed(v, message)) {
        assert forall|k: int| 0 <= k < v.included.len() implies included_under(
            #[trigger] v.included[k],
            include_names(v.program.statements)[k],
            wider,
            stack,
            depth,
        ) by {
            lemma_included_widens(
                v.included[k],
                include_names(v.program.statements)[k],
                may,
                wider,
                stack,
                depth,
            );
        }
    }
}

/// What holds of an included source for the answers of one resolver
/// holds for those of every resolver that may give these answers too.
pub proof fn lemma_included_widens(
    v: QasmSourceView,
    name: Seq<char>,
    may: spec_fn(Seq<char>, Answer) -> bool,
    wider: spec_fn(Seq<char>, Answer) -> bool,
    stack: Seq<Seq<char>>,
    depth: usize,
)
    requires
        within(may, wider),
        included_under(v, name, may, stack, depth),
    ensures
        included_under(v, name, wider, stack, depth),
    decreases v, 1int,
{
    if failed(v, reason(v)) && v.path == name && may(name, Err(reason(v))) {
    } else if depth == 0 || stack.contains(v.path) {
        let text = choose|text: Seq<char>| #[trigger] may(name, Ok((v.path, text)));
        assert(wider(name, Ok((v.path, text))));
        assert(may_give(wider, name, v.path, false));
    } else if parsed(v) && may(name, Ok((v.path, v.source))) && consistent(
        v,
        may,
        stack.push(v.path),
        (depth - 1) as usize,
    ) {
        lemma_consistent_widens(v, may, wider, stack.push(v.path), (depth - 1) as usize);
    } else {
        let text = choose|text: Seq<char>| #[trigger]
            may(name, Ok((v.path, text))) && byte_len(text) > u32::MAX;
        assert(wider(name, Ok((v.path, text))));
        assert(may_give(wider, name, v.path, true));
    }
}

/// What the answer `resolved` amounts to for the answers of one resolver
/// it amounts to for those of every resolver that may give these too.
pub proof fn lemma_resolution_widens(
    v: QasmSourceView,
    name: Seq<char>,
    resolved: Answer,
    may: spec_fn(Seq<char>, Answer) -> bool,
    wider: spec_fn(Seq<char>, Answer) -> bool,
    stack: Seq<Seq<char>>,
    depth: usize,
)
    requires
        within(may, wider),
        resolution_of(v, name, resolved, may, stack, depth),
    ensures
        resolution_of(v, name, resolved, wider, stack, depth),
{
    if let Ok((path, text)) = resolved {
        if depth > 0 && !stack.contains(path) && byte_len(text) <= u32::MAX {
            lemma_consistent_widens(v, may, wider, stack.push(path), (depth - 1) as usize);
        }
    }
}

/// A resolver that was narrowed may give no answer that it could not
/// give before.
pub proof fn lemma_narrowed_is_within<R: SourceResolver>(before: R, after: R)
    requires
        narrowed(before, after),
    ensures
        within(answers_of(after), answers_of(before)),
{
    assert forall|path: Seq<char>, answer: Answer| #[trigger]
        answers_of(after)(path, answer) implies answers_of(before)(path, answer) by {
        assert(after.may_answer(path, answer));
    }
}

/// A source that was not parsed, with the reason.
fn failed_source(path: &str, message: String) -> (r: QasmSource)
    ensures
        failed(r@, message@),
        r@.path == path@,
{
    let mut errors: Vec<Error> = Vec::new();
    errors.push(Error::new(ErrorKind::IO(message)));
    let program = Program { span: Span::empty(), statements: Vec::new(), version: None };
    proof {
        assert(stmt_views(program.statements@) =~= Seq::empty());
    }
    let r = QasmSource {
        path: path.to_owned(),
        source: String::new(),
        program,
        errors,
        included: Vec::new(),
    };
    proof {
        assert(source_views(r.included@) =~= Seq::empty());
        assert(failed(r@, message@));
    }
    r
}

/// Whether `v` is what the answer `resolved` of the resolver to the
/// request for `path` amounts to, while the sources of `stack` are being
/// parsed and `depth` more levels of inclusion are allowed.
///
/// - A refusal is a source that was not parsed, under the requested name,
///   with the reason of the refusal as its error.
/// - A text is a source under the name that the resolver gave. It was not
///   parsed if no more level is allowed, if a source of that name is being
///   parsed, or if the text has 4 GiB or more; else it holds the parse of
///   the text, and its own inclusions were resolved with its name added
///   to the sources that are being parsed and one level less allowed.
pub open spec fn resolution_of(
    v: QasmSourceView,
    path: Seq<char>,
    resolved: Answer,
    may: spec_fn(Seq<char>, Answer) -> bool,
    stack: Seq<Seq<char>>,
    depth: usize,
) -> bool {
    match resolved {
        Err(e) => failed(v, e) && v.path == path,
        Ok((name, text)) => if depth == 0 {
            failed(v, "includes are nested too deeply"@) && v.path == name
        } else if stack.contains(name) {
            failed(v, "cyclic include"@) && v.path == name
        } else if byte_len(text) > u32::MAX {
            failed(v, "source is too large"@) && v.path == name
        } else {
            parsed(v) && v.path == name && v.source == text && consistent(
                v,
                may,
                stack.push(name),
                (depth - 1) as usize,
            )
        },
    }
}

/// What a resolved inclusion amounts to, for each answer of the
/// resolver; the sources that it includes in turn are resolved by
/// `resolver`. An inclusion that cannot be read, that is nested too deeply,
/// that includes a source that is being parsed, or whose text has 4 GiB
/// or more, is a source that was not parsed, with one error; every other
/// one is parsed with its own inclusions.
pub fn resolved_source<R: SourceResolver>(
    path: &str,
    resolved: Result<(String, String), String>,
    resolver: &mut R,
    ctx: &mut SourceResolverContext,
    depth: usize,
) -> (r: QasmSource)
    ensures
        final(ctx).stack() == old(ctx).stack(),
        narrowed(*old(resolver), *final(resolver)),
        resolution_of(
            r@,
            path@,
            answer_of(resolved),
            answers_of(*old(resolver)),
            old(ctx).stack(),
            depth,
        ),
    decreases depth, 1int,
{
    match resolved {
        Err(e) => failed_source(path, e),
        Ok((name, text)) => {
            if depth == 0 {
                failed_source(name.as_str(), "includes are nested too deeply".to_owned())
            } else if ctx.is_active(name.as_str()) {
                failed_source(name.as_str(), "cyclic include".to_owned())
            } else {
                ctx.push_current_file(name.as_str());
                let r = parse_qasm_source(text.as_str(), name.as_str(), resolver, ctx, depth - 1);
                // once the source and what it includes is parsed, it is no
                // longer active
                ctx.pop_current_file();
                proof {
                    assert(old(ctx).stack().push(name@).drop_last() =~= old(ctx).stack());
                }
                r
            }
        },
    }
}

/// Reads the source that `path` names and parses it with what it
/// includes. The resolver is asked for `path`, and the result is what
/// an answer that it may give amounts to: a source that cannot be read stands in
/// the tree under the name `path`, with the empty program and the
/// reason as its one error; a source that is read stands under the name
/// that the resolver gave, parsed unless it lies too deep, includes
/// itself, or is too large.
pub fn parse_qasm_file<R: SourceResolver>(
    path: &str,
    resolver: &mut R,
    ctx: &mut SourceResolverContext,
    depth: usize,
) -> (r: QasmSource)
    ensures
        final(ctx).stack() == old(ctx).stack(),
        narrowed(*old(resolver), *final(resolver)),
        included_as(r@, path@, answers_of(*old(resolver)), old(ctx).stack(), depth),
    decreases depth, 2int,
{
    let resolved = resolver.resolve(path);
    let ghost asked = *resolver;
    let r = resolved_source(path, resolved, resolver, ctx, depth);
    proof {
        let may = answers_of(*old(resolver));
        lemma_narrowed_is_within(*old(resolver), asked);
        lemma_resolution_widens(
            r@,
            path@,
            answer_of(resolved),
            answers_of(asked),
            may,
            old(ctx).stack(),
            depth,
        );
        assert(may(path@, answer_of(resolved)));
        assert(included_as(r@, path@, may, old(ctx).stack(), depth));
    }
    r
}

/// Parses `source` and, through the resolver, every source that it
/// includes, directly or not.
pub fn parse_qasm_source<R: SourceResolver>(
    source: &str,
    path: &str,
    resolver: &mut R,
    ctx: &mut SourceResolverContext,
    depth: usize,
) -> (r: QasmSource)
    ensures
        consistent(r@, answers_of(*old(resolver)), old(ctx).stack(), depth),
        final(ctx).stack() == old(ctx).stack(),
        narrowed(*old(resolver), *final(resolver)),
        r@.path == path@,
        byte_len(source@) <= u32::MAX ==> parsed(r@) && r@.source == source@,
        byte_len(source@) > u32::MAX ==> failed(r@, "source is too large"@),
    decreases depth, 5int,
{
    let len = source.as_bytes().len();
    if len > u32::MAX as usize {
        return failed_source(path, "source is too large".to_owned());
    }
    let (program, errors, includes) = parse_source_and_includes(source, resolver, ctx, depth);
    let ghost children = includes@;
    let r = QasmSource::new(source, path, program, errors, includes);
    proof {
        lemma_source_views(children);
        let names = include_names(r@.program.statements);
        let stack = old(ctx).stack();
        let may = answers_of(*old(resolver));
        assert forall|k: int| 0 <= k < r@.included.len() implies included_under(
            #[trigger] r@.included[k],
            names[k],
            may,
            stack,
            depth,
        ) by {
            assert(r@.included[k] == children[k]@);
            lemma_included_is_a_resolution(children[k]@, names[k], may, stack, depth);
        }
        assert(parsed(r@));
        assert(consistent(r@, may, stack, depth));
    }
    r
}

/// Parses `source` and every source that it includes: the program, the
/// errors of its parse, and the included sources in the order of the
/// statements that include them.
pub fn parse_source_and_includes<R: SourceResolver>(
    source: &str,
    resolver: &mut R,
    ctx: &mut SourceResolverContext,
    depth: usize,
) -> (r: (Program, Vec<Error>, Vec<QasmSource>))
    requires
        byte_len(source@) <= u32::MAX,
    ensures
        final(ctx).stack() == old(ctx).stack(),
        (r.0@, r.1@) == parse_spec(source@),
        narrowed(*old(resolver), *final(resolver)),
        r.2@.len() == include_names(r.0@.statements).len(),
        forall|k: int|
            0 <= k < r.2@.len() ==> included_as(
                (#[trigger] r.2@[k])@,
                include_names(r.0@.statements)[k],
                answers_of(*old(resolver)),
                old(ctx).stack(),
                depth,
            ),
    decreases depth, 4int,
{
    let (program, errors) = parse(source);
    let included = parse_includes(&program, resolver, ctx, depth);
    (program, errors, included)
}

/// Reads and parses the sources that the statements of `program`
/// include: one for each inclusion, in the order of the statements, each
/// what the answer of the resolver to the name of its inclusion amounts
/// to. A source that cannot be read does not stop the ones after it. The
/// standard gate library is passed over.
pub fn parse_includes<R: SourceResolver>(
    program: &Program,
    resolver: &mut R,
    ctx: &mut SourceResolverContext,
    depth: usize,
) -> (r: Vec<QasmSource>)
    ensures
        final(ctx).stack() == old(ctx).stack(),
        narrowed(*old(resolver), *final(resolver)),
        r@.len() == include_names(program@.statements).len(),
        forall|k: int|
            0 <= k < r@.len() ==> included_as(
                (#[trigger] r@[k])@,
                include_names(program@.statements)[k],
                answers_of(*old(resolver)),
                old(ctx).stack(),
                depth,
            ),
    decreases depth, 3int,
{
    let mut includes: Vec<QasmSource> = Vec::new();
    let mut i: usize = 0;
    proof {
        assert(program.statements@.take(0) =~= Seq::empty());
    }
    while i < program.statements.len()
        invariant
            i <= program.statements@.len(),
            ctx.stack() == old(ctx).stack(),
            narrowed(*old(resolver), *resolver),
            includes@.len() == include_names(stmt_views(program.statements@.take(i as int))).len(),
            forall|k: int|
                0 <= k < includes@.len() ==> included_as(
                    (#[trigger] includes@[k])@,
                    include_names(stmt_views(program.statements@.take(i as int)))[k],
                    answers_of(*old(resolver)),
                    old(ctx).stack(),
                    depth,
                ),
        decreases program.statements@.len() - i,
    {
        proof {
            let next = program.statements@.take(i + 1);
            assert(next.drop_last() =~= program.statements@.take(i as int));
            assert(next.last() == program.statements@[i as int]);
            let views = stmt_views(next);
            assert(views.drop_last() =~= stmt_views(program.statements@.take(i as int)));
            assert(views.last() == program.statements@[i as int]@);
        }
        match &*program.statements[i].kind {
            StmtKind::Include(inc) => {
                // the compiler supplies the standard gates
                if !is_std_include(inc.filename.as_str()) {
                    let ghost before = includes@;
                    let ghost asked = *resolver;
                    let source = parse_qasm_file(inc.filename.as_str(), resolver, ctx, depth);
                    includes.push(source);
                    proof {
                        let may = answers_of(*old(resolver));
                        let stack = old(ctx).stack();
                        let names = include_names(stmt_views(program.statements@.take(i + 1)));
                        lemma_narrowed_is_within(*old(resolver), asked);
                        assert forall|k: int| 0 <= k < includes@.len() implies included_as(
                            (#[trigger] includes@[k])@,
                            names[k],
                            may,
                            stack,
                            depth,
                        ) by {
                            if k < before.len() {
                                assert(includes@[k] == before[k]);
                            } else {
                                let v = includes@[k]@;
                                lemma_included_is_a_resolution(
                                    v,
                                    names[k],
                                    answers_of(asked),
                                    stack,
                                    depth,
                                );
                                lemma_included_widens(
                                    v,
                                    names[k],
                                    answers_of(asked),
                                    may,
                                    stack,
                                    depth,
                                );
                                lemma_included_is_a_resolution(v, names[k], may, stack, depth);
                            }
                        }
                    }
                }
            },
            _ => {},
        }
        i += 1;
    }
    proof {
        assert(program.statements@.take(i as int) =~= program.statements@);
    }
    includes
}

/// The errors with their spans moved forward by `off` bytes.
pub open spec fn shift_errors(errors: Seq<Error>, off: u32) -> Seq<Error> {
    Seq::new(errors.len(), |i: int| errors[i].shifted(off))
}

/// The tree with every span of each source moved forward by the offset
/// of that source in the map.
pub open spec fn shifted_tree(v: QasmSourceView, map: SourceMap) -> QasmSourceView
    decreases v,
{
    let off = map.offset_of(v.path);
    QasmSourceView {
        path: v.path,
        source: v.source,
        program: shift_program(v.program, off),
        errors: shift_errors(v.errors, off),
        included: shifted_trees(v.included, map),
    }
}

/// The trees with every span moved by the offset of its source.
pub open spec fn shifted_trees(items: Seq<QasmSourceView>, map: SourceMap) -> Seq<QasmSourceView>
    decreases items,
{
    if items.len() == 0 {
        Seq::empty()
    } else {
        shifted_trees(items.drop_last(), map).push(shifted_tree(items.last(), map))
    }
}

/// A list of moved trees holds the moved entries, in order.
pub proof fn lemma_shifted_trees(items: Seq<QasmSourceView>, map: SourceMap)
    ensures
        shifted_trees(items, map).len() == items.len(),
        forall|i: int|
            0 <= i < items.len() ==> (#[trigger] shifted_trees(items, map)[i]) == shifted_tree(
                items[i],
                map,
            ),
    decreases items.len(),
{
    if items.len() > 0 {
        lemma_shifted_trees(items.drop_last(), map);
        let rest = shifted_trees(items.drop_last(), map);
        assert forall|i: int| 0 <= i < items.len() implies (#[trigger] shifted_trees(items, map)[i])
            == shifted_tree(items[i], map) by {
            if i < items.len() - 1 {
                assert(rest[i] == shifted_tree(items.drop_last()[i], map));
            }
        }
    }
}

/// Moves the spans of the errors forward by `off` bytes.
fn offset_errors(errors: Vec<Error>, off: u32) -> (r: Vec<Error>)
    ensures
        r@ == shift_errors(errors@, off),
{
    let ghost n = errors@.len() as int;
    let mut rest = errors;
    let mut out: Vec<Error> = Vec::new();
    while rest.len() > 0
        invariant
            n == errors@.len(),
            rest@.len() + out@.len() == n,
            rest@ == errors@.take(rest@.len() as int),
            forall|i: int| 0 <= i < out@.len() ==> (#[trigger] out@[i]) == errors@[n - 1 - i].shifted(
                off,
            ),
        decreases rest@.len(),
    {
        let e = rest.pop().unwrap();
        out.push(e.with_offset(off));
    }
    let r = reversed(out);
    assert(r@ =~= shift_errors(errors@, off));
    r
}

/// Addresses the spans of every source of the tree in the concatenation
/// of all sources: the spans of each program and of each error are moved
/// forward by the offset that the map gives for the name of their
/// source. This is done once the whole tree is known, since the offsets
/// depend on every source. Offsets wrap at 32 bits.
pub fn update_offsets(source_map: &SourceMap, source: QasmSource) -> (r: QasmSource)
    ensures
        r@ == shifted_tree(source@, *source_map),
    decreases source,
{
    let offset = source_map.offset_for(source.path.as_str());
    let errors = offset_errors(source.errors, offset);
    let program = offset_program(source.program, offset);
    let ghost children = source.included@;
    let ghost n = children.len() as int;
    proof {
        lemma_source_views(children);
    }
    let mut rest = source.included;
    let mut out: Vec<QasmSource> = Vec::new();
    while rest.len() > 0
        invariant
            n == children.len(),
            rest@.len() + out@.len() == n,
            rest@ == children.take(rest@.len() as int),
            forall|k: int| 0 <= k < n ==> decreases_to!(source => #[trigger] children[k]),
            forall|i: int| 0 <= i < out@.len() ==> (#[trigger] out@[i])@ == shifted_tree(
                children[n - 1 - i]@,
                *source_map,
            ),
        decreases rest@.len(),
    {
        let child = rest.pop().unwrap();
        assert(child == children[rest@.len() as int]);
        let moved = update_offsets(source_map, child);
        out.push(moved);
    }
    let included = reversed(out);
    proof {
        lemma_source_views(included@);
        lemma_shifted_trees(source_views(children), *source_map);
        assert(source_views(included@) =~= shifted_trees(source_views(children), *source_map));
    }
    QasmSource { path: source.path, source: source.source, program, errors, included }
}

/// A parsed source with what it includes, and the map of all sources
/// that every span is addressed in.
pub struct QasmParseResult {
    pub source: QasmSource,
    pub source_map: SourceMap,
}

/// Whether `map` is the map of the sources of the tree `v`, depth first.
pub open spec fn maps(map: SourceMap, v: QasmSourceView) -> bool {
    &&& map.wf()
    &&& map.sources@.len() == flatten(v).len()
    &&& forall|k: int|
        0 <= k < map.sources@.len() ==> (#[trigger] map.sources@[k]).name@ == flatten(v)[k].0
            && map.sources@[k].contents@ == flatten(v)[k].1
}

impl QasmParseResult {
    /// The result of a parse: the map of the sources of the tree, and the
    /// tree with every span addressed in that map.
    pub fn new(source: QasmSource) -> (r: QasmParseResult)
        ensures
            maps(r.source_map, source@),
            r.source@ == shifted_tree(source@, r.source_map),
    {
        let source_map = create_source_map(&source);
        let source = update_offsets(&source_map, source);
        QasmParseResult { source, source_map }
    }

    /// Whether any source has an error.
    pub fn has_errors(&self) -> (r: bool)
        ensures
            r == tree_has_errors(self.source@),
    {
        self.source.has_errors()
    }

    /// The errors of all sources: those of the root, then those of the
    /// sources that it includes, in order.
    pub fn all_errors(&self) -> (r: Vec<Error>)
        ensures
            r@ == tree_errors(self.source@),
    {
        self.source.all_errors()
    }

    /// The errors of the root source alone.
    pub fn errors(&self) -> (r: Vec<Error>)
        ensures
            r@ == self.source@.errors,
    {
        self.source.errors()
    }
}

/// Parses `source` and every source that it includes, and addresses all
/// spans in the map of all sources. A `source` of 4 GiB or more is not
/// parsed: the tree is that one source, with one error. An included
/// source that cannot be read, that includes itself, that is nested more than
/// `INCLUDE_DEPTH_LIMIT` deep or whose text has 4 GiB or more adds one
/// error to the tree; the rest of the tree is parsed all the same.
pub fn parse_source<R: SourceResolver>(source: &str, path: &str, resolver: &mut R) -> (r:
    QasmParseResult)
    ensures
        narrowed(*old(resolver), *final(resolver)),
        exists|tree: QasmSourceView|
            {
                &&& consistent(tree, answers_of(*old(resolver)), seq![path@], INCLUDE_DEPTH_LIMIT)
                &&& tree.path == path@
                &&& byte_len(source@) <= u32::MAX ==> parsed(tree) && tree.source == source@
                &&& byte_len(source@) > u32::MAX ==> failed(tree, "source is too large"@)
                &&& maps(r.source_map, tree)
                &&& r.source@ == #[trigger] shifted_tree(tree, r.source_map)
            },
{
    let mut ctx = SourceResolverContext::new();
    ctx.push_current_file(path);
    let res = parse_qasm_source(source, path, resolver, &mut ctx, INCLUDE_DEPTH_LIMIT);
    let ghost tree = res@;
    let r = QasmParseResult::new(res);
    proof {
        assert(r.source@ == shifted_tree(tree, r.source_map));
    }
    r
}

/// In the map of a tree, a source whose name no source before it has
/// stands at the combined length of the sources before it, as long as
/// that is below 4 GiB: this is what the spans and the errors of that
/// source are moved by.
pub proof fn lemma_offset_of_is_sum(map: SourceMap, v: QasmSourceView, k: int)
    requires
        maps(map, v),
        0 <= k < flatten(v).len(),
        forall|j: int| 0 <= j < k ==> (#[trigger] flatten(v)[j]).0 != flatten(v)[k].0,
        total_len(map.texts().take(k)) <= u32::MAX,
    ensures
        map.offset_of(flatten(v)[k].0) == total_len(map.texts().take(k)),
{
    let name = flatten(v)[k].0;
    assert(map.sources@[k].name@ == name);
    assert forall|j: int| 0 <= j < k implies (#[trigger] map.sources@[j]).name@ != name by {
        assert(map.sources@[j].name@ == flatten(v)[j].0);
    }
    assert(map.first_named(k, name));
    let c = choose|c: int| map.first_named(c, name);
    if c < k {
        assert(map.sources@[c].name@ != name);
    }
    if k < c {
        assert(map.sources@[k].name@ != name);
    }
    lemma_start_offset_is_sum(map.texts(), k);
}

/// A resolver over sources in memory has one answer to the request for
/// a name that one of its sources has: the text of the first source of
/// that name, under that name.
pub proof fn lemma_answer_in_memory(resolver: InMemorySourceResolver, k: int, name: Seq<char>)
    requires
        resolver.first_named(k, name),
    ensures
        answers_of(resolver)(name, Ok((name, resolver.sources@[k].1@))),
        forall|answer: Answer| #[trigger]
            answers_of(resolver)(name, answer) ==> answer == Ok::<
                (Seq<char>, Seq<char>),
                Seq<char>,
            >((name, resolver.sources@[k].1@)),
{
    let c = choose|c: int| resolver.first_named(c, name);
    if c < k {
        assert(resolver.sources@[c].0@ != name);
    }
    if k < c {
        assert(resolver.sources@[k].0@ != name);
    }
    assert(resolver.answer_to(name) == Ok::<(Seq<char>, Seq<char>), Seq<char>>(
        (name, resolver.sources@[k].1@),
    ));
}

/// The sources of a root that includes one source, which includes
/// another, depth first: the root, the first, the second.
pub proof fn lemma_chain_flattens(root: QasmSourceView)
    requires
        root.included.len() == 1,
        root.included[0].included.len() == 1,
        root.included[0].included[0].included.len() == 0,
    ensures
        flatten(root) == seq![
            (root.path, root.source),
            (root.included[0].path, root.included[0].source),
            (root.included[0].included[0].path, root.included[0].included[0].source),
        ],
{
    let a = root.included[0];
    let b = a.included[0];
    assert(flatten_all(b.included) == Seq::<(Seq<char>, Seq<char>)>::empty());
    assert(flatten(b) =~= seq![(b.path, b.source)]);
    assert(a.included.drop_last() =~= Seq::<QasmSourceView>::empty());
    assert(flatten_all(a.included.drop_last()) == Seq::<(Seq<char>, Seq<char>)>::empty());
    assert(flatten_all(a.included) =~= flatten(b));
    assert(flatten(a) =~= seq![(a.path, a.source), (b.path, b.source)]);
    assert(root.included.drop_last() =~= Seq::<QasmSourceView>::empty());
    assert(flatten_all(root.included.drop_last()) == Seq::<(Seq<char>, Seq<char>)>::empty());
    assert(flatten_all(root.included) =~= flatten(a));
    assert(flatten(root) =~= seq![(root.path, root.source), (a.path, a.source), (b.path, b.source)]);
}

/// A root whose one inclusion asks for `first.0`, where the resolver
/// has one answer to that request, the text `first.2` under the name
/// `first.1`; that text in turn has one inclusion, which asks for
/// `second.0`, to which the one answer is the text `second.2` under the
/// name `second.1`, which includes nothing. Neither name is that of a
/// source that is being parsed, and both texts are below 4 GiB. Then the
/// tree has three levels: the root holds the parse of the first text
/// under its name, that holds the parse of the second, and that holds
/// nothing; depth first, the sources are the root, the first and the
/// second.
pub proof fn lemma_chain_of_answers(
    root: QasmSourceView,
    may: spec_fn(Seq<char>, Answer) -> bool,
    stack: Seq<Seq<char>>,
    depth: usize,
    first: (Seq<char>, Seq<char>, Seq<char>),
    second: (Seq<char>, Seq<char>, Seq<char>),
)
    requires
        consistent(root, may, stack, depth),
        parsed(root),
        depth >= 2,
        include_names(root.program.statements) == seq![first.0],
        forall|answer: Answer| #[trigger] may(first.0, answer) ==> answer == Ok::<
            (Seq<char>, Seq<char>),
            Seq<char>,
        >((first.1, first.2)),
        !stack.contains(first.1),
        byte_len(first.2) <= u32::MAX,
        include_names(parse_spec(first.2).0.statements) == seq![second.0],
        forall|answer: Answer| #[trigger] may(second.0, answer) ==> answer == Ok::<
            (Seq<char>, Seq<char>),
            Seq<char>,
        >((second.1, second.2)),
        !stack.contains(second.1),
        second.1 != first.1,
        byte_len(second.2) <= u32::MAX,
        include_names(parse_spec(second.2).0.statements).len() == 0,
    ensures
        root.included.len() == 1,
        ({
            let a = root.included[0];
            &&& a.path == first.1
            &&& a.source == first.2
            &&& (a.program, a.errors) == parse_spec(first.2)
            &&& a.included.len() == 1
        }),
        ({
            let b = root.included[0].included[0];
            &&& b.path == second.1
            &&& b.source == second.2
            &&& (b.program, b.errors) == parse_spec(second.2)
            &&& b.included.len() == 0
        }),
        flatten(root) == seq![(root.path, root.source), (first.1, first.2), (second.1, second.2)],
{
    let a = root.included[0];
    lemma_one_answer(a, first.0, may, stack, depth, first.1, first.2);
    let inner = stack.push(first.1);
    assert(!inner.contains(second.1)) by {
        if inner.contains(second.1) {
            let i = choose|i: int| 0 <= i < inner.len() && inner[i] == second.1;
            if i < stack.len() {
                assert(stack[i] == second.1);
            }
        }
    }
    let b = a.included[0];
    lemma_one_answer(b, second.0, may, inner, (depth - 1) as usize, second.1, second.2);
    lemma_chain_flattens(root);
}

/// The source that is included for a request to which the resolver has
/// one answer, a text below 4 GiB under a name that is not being parsed,
/// while a level is left: the parse of that text under that name, with
/// its own inclusions resolved one level further.
pub proof fn lemma_one_answer(
    v: QasmSourceView,
    name: Seq<char>,
    may: spec_fn(Seq<char>, Answer) -> bool,
    stack: Seq<Seq<char>>,
    depth: usize,
    path: Seq<char>,
    text: Seq<char>,
)
    requires
        included_under(v, name, may, stack, depth),
        forall|answer: Answer| #[trigger] may(name, answer) ==> answer == Ok::<
            (Seq<char>, Seq<char>),
            Seq<char>,
        >((path, text)),
        depth > 0,
        !stack.contains(path),
        byte_len(text) <= u32::MAX,
    ensures
        v.path == path,
        v.source == text,
        (v.program, v.errors) == parse_spec(text),
        parsed(v),
        consistent(v, may, stack.push(path), (depth - 1) as usize),
        forall|k: int|
            0 <= k < v.included.len() ==> included_under(
                #[trigger] v.included[k],
                include_names(v.program.statements)[k],
                may,
                stack.push(path),
                (depth - 1) as usize,
            ),
{
    if may_give(may, name, v.path, false) {
        let t = choose|t: Seq<char>| #[trigger] may(name, Ok((v.path, t)));
        assert(v.path == path);
    }
    if may_give(may, name, v.path, true) {
        let t = choose|t: Seq<char>| #[trigger]
            may(name, Ok((v.path, t))) && byte_len(t) > u32::MAX;
        assert(t == text);
    }
    assert(may(name, Ok((v.path, v.source))));
}

/// Where the sources of a root that includes one source, which
/// includes another, stand in the map: the root at the start, the first
/// after the root, the second after both. Here the three have names of
/// their own, and the two lengths together are below 4 GiB.
pub proof fn lemma_chain_offsets(map: SourceMap, root: QasmSourceView)
    requires
        maps(map, root),
        root.included.len() == 1,
        root.included[0].included.len() == 1,
        root.included[0].included[0].included.len() == 0,
        root.path != root.included[0].path,
        root.path != root.included[0].included[0].path,
        root.included[0].path != root.included[0].included[0].path,
        byte_len(root.source) + byte_len(root.included[0].source) <= u32::MAX,
    ensures
        map.offset_of(root.path) == 0,
        map.offset_of(root.included[0].path) == byte_len(root.source),
        map.offset_of(root.included[0].included[0].path) == byte_len(root.source) + byte_len(
            root.included[0].source,
        ),
{
    let a = root.included[0];
    lemma_chain_flattens(root);
    let texts = map.texts();
    assert(texts[0] == root.source && texts[1] == a.source);
    assert(texts.take(0) =~= Seq::<Seq<char>>::empty());
    assert(texts.take(1).drop_last() =~= texts.take(0));
    assert(texts.take(2).drop_last() =~= texts.take(1));
    assert(total_len(texts.take(0)) == 0);
    assert(total_len(texts.take(1)) == byte_len(root.source));
    assert(total_len(texts.take(2)) == byte_len(root.source) + byte_len(a.source));
    lemma_offset_of_is_sum(map, root, 0);
    lemma_offset_of_is_sum(map, root, 1);
    lemma_offset_of_is_sum(map, root, 2);
}

/// A root that includes one source, which includes another: the map
/// lists the three in this order, and in the tree with its spans moved
/// the root stays where it is, the first included source is moved by the
/// length of the root, and the second by the combined length of the root
/// and the first. Here the three have names of their own, and the two
/// lengths together are below 4 GiB.
pub proof fn lemma_chain_is_moved_by_lengths(map: SourceMap, root: QasmSourceView)
    requires
        maps(map, root),
        root.included.len() == 1,
        root.included[0].included.len() == 1,
        root.included[0].included[0].included.len() == 0,
        root.path != root.included[0].path,
        root.path != root.included[0].included[0].path,
        root.included[0].path != root.included[0].included[0].path,
        byte_len(root.source) + byte_len(root.included[0].source) <= u32::MAX,
    ensures
        ({
            let a = root.included[0];
            let b = a.included[0];
            let moved = shifted_tree(root, map);
            let first = byte_len(root.source) as u32;
            let second = (byte_len(root.source) + byte_len(a.source)) as u32;
            &&& flatten(root) == seq![(root.path, root.source), (a.path, a.source), (b.path, b.source)]
            &&& moved.program == shift_program(root.program, 0)
            &&& moved.errors == shift_errors(root.errors, 0)
            &&& moved.included.len() == 1
            &&& moved.included[0].program == shift_program(a.program, first)
            &&& moved.included[0].errors == shift_errors(a.errors, first)
            &&& moved.included[0].included.len() == 1
            &&& moved.included[0].included[0].program == shift_program(b.program, second)
            &&& moved.included[0].included[0].errors == shift_errors(b.errors, second)
        }),
{
    let a = root.included[0];
    let b = a.included[0];
    lemma_chain_flattens(root);
    lemma_chain_offsets(map, root);
    lemma_shifted_trees(root.included, map);
    lemma_shifted_trees(a.included, map);
    assert(shifted_tree(root, map).included[0] == shifted_tree(a, map));
    assert(shifted_tree(a, map).included[0] == shifted_tree(b, map));
}

} // verus!
