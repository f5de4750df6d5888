//! The entry points of the front end: a source with the way it is to be
//! compiled.

use crate::io::InMemorySourceResolver;
use crate::io::Answer;
use crate::parser::answers_of;
use crate::parser::consistent;
use crate::parser::lemma_consistent_widens;
use crate::parser::failed;
use crate::parser::INCLUDE_DEPTH_LIMIT;
use crate::parser::maps;
use crate::parser::parse_source;
use crate::parser::parsed;
use crate::parser::shifted_tree;
use crate::parser::QasmParseResult;
use crate::parser::QasmSourceView;
use crate::text::byte_len;
use vstd::prelude::*;

verus! {

/// How qubits are initialised and released.
#[derive(Clone, Copy, Debug, PartialEq, Eq, Structural)]
pub enum QubitSemantics {
    QSharp,
    Qiskit,
}

/// What the outputs of the program look like.
#[derive(Clone, Copy, Debug, PartialEq, Eq, Structural)]
pub enum OutputSemantics {
    Qiskit,
    OpenQasm,
    ResourceEstimation,
}

/// What the program is compiled to.
#[derive(Clone, Copy, Debug, PartialEq, Eq, Structural)]
pub enum ProgramType {
    /// A whole file with an entry point.
    File,
    /// One operation.
    Operation,
    /// Statements without an operation around them.
    Fragments,
}

/// The way a source is to be compiled.
#[derive(Debug, PartialEq, Eq)]
pub struct CompilerConfig {
    pub qubit_semantics: QubitSemantics,
    pub output_semantics: OutputSemantics,
    pub program_ty: ProgramType,
    pub operation_name: Option<String>,
    pub namespace: Option<String>,
}

/// The view of an optional string.
pub open spec fn opt_text(s: Option<String>) -> Option<Seq<char>> {
    match s {
        Some(s) => Some(s@),
        None => None,
    }
}

impl CompilerConfig {
    /// A configuration of the given parts.
    pub fn new(
        qubit_semantics: QubitSemantics,
        output_semantics: OutputSemantics,
        program_ty: ProgramType,
        operation_name: Option<String>,
        namespace: Option<String>,
    ) -> (r: CompilerConfig)
        ensures
            r == (CompilerConfig {
                qubit_semantics,
                output_semantics,
                program_ty,
                operation_name,
                namespace,
            }),
    {
        CompilerConfig { qubit_semantics, output_semantics, program_ty, operation_name, namespace }
    }
}

/// What the front end hands to the stages that follow: the parsed
/// sources with their map, and the way they are to be compiled.
pub struct QasmCompileUnit {
    pub config: CompilerConfig,
    pub parse: QasmParseResult,
}

/// The answers of a resolver without sources: every request is refused.
pub open spec fn no_sources() -> spec_fn(Seq<char>, Answer) -> bool {
    |path: Seq<char>, answer: Answer|
        answer == Err::<(Seq<char>, Seq<char>), Seq<char>>("no source of that name"@)
}

/// Whether `r` is the result of the parse of `source` under the name
/// `path`, where no source can be included: every inclusion but that of
/// the standard gate library is a source that was not parsed.
pub open spec fn is_parse_of(r: QasmParseResult, source: Seq<char>, path: Seq<char>) -> bool {
    exists|tree: QasmSourceView|
        {
            &&& consistent(tree, no_sources(), seq![path], INCLUDE_DEPTH_LIMIT)
            &&& tree.path == path
            &&& byte_len(source) <= u32::MAX ==> parsed(tree) && tree.source == source
            &&& byte_len(source) > u32::MAX ==> failed(tree, "source is too large"@)
            &&& maps(r.source_map, tree)
            &&& r.source@ == #[trigger] shifted_tree(tree, r.source_map)
        }
}

/// Parses `source` for the given configuration. No source can be
/// included but the standard gate library.
pub fn convert_with_config(source: &str, path: &str, config: CompilerConfig) -> (r: QasmCompileUnit)
    ensures
        r.config == config,
        is_parse_of(r.parse, source@, path@),
{
    let mut resolver = InMemorySourceResolver::new(Vec::new());
    let ghost empty = resolver;
    let parse = parse_source(source, path, &mut resolver);
    proof {
        let may = answers_of(empty);
        assert forall|name: Seq<char>, answer: Answer| #[trigger]
            may(name, answer) implies no_sources()(name, answer) by {
            assert(answer == empty.answer_to(name));
        }
        let tree = choose|tree: QasmSourceView|
            {
                &&& consistent(tree, may, seq![path@], INCLUDE_DEPTH_LIMIT)
                &&& tree.path == path@
                &&& byte_len(source@) <= u32::MAX ==> parsed(tree) && tree.source == source@
                &&& byte_len(source@) > u32::MAX ==> failed(tree, "source is too large"@)
                &&& maps(parse.source_map, tree)
                &&& parse.source@ == #[trigger] shifted_tree(tree, parse.source_map)
            };
        lemma_consistent_widens(tree, may, no_sources(), seq![path@], INCLUDE_DEPTH_LIMIT);
    }
    QasmCompileUnit { config, parse }
}

/// Parses `source` as statements without an operation around them, with
/// the qubits of Qiskit and the outputs of OpenQASM.
pub fn parse_raw_qasm_as_fragments(source: &str, path: &str) -> (r: QasmCompileUnit)
    ensures
        r.config == (CompilerConfig {
            qubit_semantics: QubitSemantics::Qiskit,
            output_semantics: OutputSemantics::OpenQasm,
            program_ty: ProgramType::Fragments,
            operation_name: None,
            namespace: None,
        }),
        is_parse_of(r.parse, source@, path@),
{
    let config = CompilerConfig::new(
        QubitSemantics::Qiskit,
        OutputSemantics::OpenQasm,
        ProgramType::Fragments,
        None,
        None,
    );
    convert_with_config(source, path, config)
}

/// Parses `source` as the operation `name`, with the qubits of Qiskit
/// and the outputs of OpenQASM.
pub fn parse_raw_qasm_as_operation(source: &str, name: &str, path: &str) -> (r: QasmCompileUnit)
    ensures
        r.config.qubit_semantics == QubitSemantics::Qiskit,
        r.config.output_semantics == OutputSemantics::OpenQasm,
        r.config.program_ty == ProgramType::Operation,
        opt_text(r.config.operation_name) == Some(name@),
        r.config.namespace is None,
        is_parse_of(r.parse, source@, path@),
{
    let config = CompilerConfig::new(
        QubitSemantics::Qiskit,
        OutputSemantics::OpenQasm,
        ProgramType::Operation,
        Some(name.to_owned()),
        None,
    );
    convert_with_config(source, path, config)
}

} // verus!
