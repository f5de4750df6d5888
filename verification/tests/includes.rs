use qasm3_front::io::{InMemorySourceResolver, SourceResolver, SourceResolverContext};
use qasm3_front::parser::ast::{ExprKind, Program, Stmt, StmtKind};
use qasm3_front::parser::error::{Error, ErrorKind};
use qasm3_front::parser::source::SourceMap;
use qasm3_front::parser::{
    collect_source_files, create_source_map, is_std_include, parse, parse_includes,
    parse_qasm_file, parse_qasm_source, parse_source, parse_source_and_includes, resolved_source,
    update_offsets, QasmParseResult, QasmSource, INCLUDE_DEPTH_LIMIT,
};
use qasm3_front::qasm::{
    convert_with_config, parse_raw_qasm_as_fragments, parse_raw_qasm_as_operation,
    CompilerConfig, OutputSemantics, ProgramType, QubitSemantics,
};
use qasm3_front::span::Span;

fn resolver(files: &[(&str, &str)]) -> InMemorySourceResolver {
    InMemorySourceResolver::new(
        files.iter().map(|(n, t)| (n.to_string(), t.to_string())).collect(),
    )
}

fn ident_of(stmt: &Stmt) -> (String, Span) {
    match &*stmt.kind {
        StmtKind::ExprStmt(e) => match &*e.kind {
            ExprKind::Ident(id) => (id.name.clone(), id.span),
            other => panic!("{other:?}"),
        },
        other => panic!("{other:?}"),
    }
}

fn io_message(e: &Error) -> &str {
    match &e.0 {
        ErrorKind::IO(m) => m,
        other => panic!("{other:?}"),
    }
}

const ROOT: &str = "include \"a.inc\";\nx;\n";
const A: &str = "include \"b.inc\";\nyy;\n";
const B: &str = "zzz;";

#[test]
fn parse_of_one_source() {
    let (program, errors) = parse("OPENQASM 3.0;\ninclude \"stdgates.inc\";\na + 1;\n");
    assert_eq!(errors, vec![]);
    let v = program.version.unwrap();
    assert_eq!((v.major, v.minor), (3, Some(0)));
    assert_eq!(program.statements.len(), 2);
    assert_eq!(program.span, Span { lo: 0, hi: 44 });
    match &*program.statements[0].kind {
        StmtKind::Include(inc) => {
            assert_eq!(inc.filename, "stdgates.inc");
            assert_eq!(inc.span, Span { lo: 14, hi: 37 });
        }
        other => panic!("{other:?}"),
    }
    assert_eq!(program.statements[1].span, Span { lo: 38, hi: 44 });
    let (program, errors) = parse("");
    assert_eq!(errors, vec![]);
    assert_eq!(program, Program { span: Span { lo: 0, hi: 0 }, statements: vec![], version: None });
}

#[test]
fn parse_goes_on_after_an_error() {
    let (program, errors) = parse("a + ;\nb;\n* c;\nd");
    assert_eq!(program.statements.len(), 4);
    assert_eq!(*program.statements[0].kind, StmtKind::Unparsed);
    assert_eq!(program.statements[0].span, Span { lo: 0, hi: 5 });
    assert_eq!(ident_of(&program.statements[1]).0, "b");
    assert_eq!(*program.statements[2].kind, StmtKind::Unparsed);
    assert_eq!(ident_of(&program.statements[3]).0, "d");
    assert_eq!(errors.len(), 3);
    assert!(matches!(errors[0].0, ErrorKind::Rule("expression", _, _)));
    assert!(matches!(errors[1].0, ErrorKind::Rule("expression", _, _)));
    // the last statement lacks its semicolon
    assert!(matches!(errors[2].0, ErrorKind::Token(_, _, Span { lo: 15, hi: 15 })));
}

#[test]
fn version_declarations() {
    let (program, errors) = parse("OPENQASM 3;");
    assert_eq!(errors, vec![]);
    assert_eq!(program.version.unwrap().minor, None);
    let (program, errors) = parse("OPENQASM x;");
    assert!(program.version.is_none());
    assert_eq!(errors.len(), 1);
    assert!(matches!(errors[0].0, ErrorKind::Rule("version", _, _)));
    // `3.0` is the version; what follows it is no semicolon
    let (program, errors) = parse("OPENQASM 3.0.1;");
    assert_eq!(program.version.unwrap().minor, Some(0));
    assert!(!errors.is_empty());
    let (_, errors) = parse("include x;");
    assert!(matches!(errors[0].0, ErrorKind::Rule("string literal", _, _)));
}

#[test]
fn standard_library_names() {
    assert!(is_std_include("stdgates.inc"));
    assert!(is_std_include("STDGATES.INC"));
    assert!(is_std_include("StdGates.inc"));
    assert!(is_std_include("qiskit_stdgates.inc"));
    assert!(is_std_include("Qiskit_StdGates.Inc"));
    // the Kelvin sign is a capital letter k
    assert!(is_std_include("qis\u{212A}it_stdgates.inc"));
    assert!(!is_std_include("stdgates"));
    assert!(!is_std_include("stdgates.inc "));
    assert!(!is_std_include("my/stdgates.inc"));
    assert!(!is_std_include(""));
}

#[test]
fn includes_make_a_tree_three_deep() {
    let mut r = resolver(&[("a.inc", A), ("b.inc", B)]);
    let result = parse_source(ROOT, "root.qasm", &mut r);
    assert!(!result.has_errors());
    let root = &result.source;
    assert_eq!(root.path(), "root.qasm");
    assert_eq!(root.source(), ROOT);
    assert_eq!(root.includes().len(), 1);
    let a = &root.includes()[0];
    assert_eq!(a.path(), "a.inc");
    assert_eq!(a.source(), A);
    assert_eq!(a.includes().len(), 1);
    let b = &a.includes()[0];
    assert_eq!(b.path(), "b.inc");
    assert_eq!(b.source(), B);
    assert!(b.includes().is_empty());
}

#[test]
fn source_map_lists_the_sources_depth_first() {
    let mut r = resolver(&[("a.inc", A), ("b.inc", B), ("c.inc", "c;")]);
    let root = "include \"a.inc\";\ninclude \"c.inc\";\n";
    let result = parse_source(root, "root.qasm", &mut r);
    let names: Vec<&str> = result.source_map.sources.iter().map(|s| s.name.as_str()).collect();
    assert_eq!(names, ["root.qasm", "a.inc", "b.inc", "c.inc"]);
    let offsets: Vec<u32> = result.source_map.sources.iter().map(|s| s.offset).collect();
    let (r_len, a_len, b_len) = (root.len() as u32, A.len() as u32, B.len() as u32);
    assert_eq!(offsets, [0, r_len, r_len + a_len, r_len + a_len + b_len]);
    assert_eq!(result.source_map.sources[2].contents, B);
}

#[test]
fn spans_of_an_included_source_are_moved_by_what_comes_before() {
    let mut r = resolver(&[("a.inc", A), ("b.inc", B)]);
    let result = parse_source(ROOT, "root.qasm", &mut r);
    let root = &result.source;
    let a = &root.includes()[0];
    let b = &a.includes()[0];
    let (r_len, a_len) = (ROOT.len() as u32, A.len() as u32);

    // the root is not moved
    assert_eq!(root.program().span, Span { lo: 0, hi: r_len - 1 });
    assert_eq!(ident_of(&root.program().statements[1]), ("x".to_string(), Span { lo: 17, hi: 18 }));
    // a.inc is moved by the length of the root
    assert_eq!(
        ident_of(&a.program().statements[1]),
        ("yy".to_string(), Span { lo: r_len + 17, hi: r_len + 19 })
    );
    // b.inc by the length of the root and of a.inc
    let off = r_len + a_len;
    assert_eq!(b.program().span, Span { lo: off, hi: off + 4 });
    assert_eq!(b.program().statements[0].span, Span { lo: off, hi: off + 4 });
    assert_eq!(ident_of(&b.program().statements[0]), ("zzz".to_string(), Span { lo: off, hi: off + 3 }));
}

#[test]
fn offsets_lead_back_to_the_source() {
    let mut r = resolver(&[("a.inc", A), ("b.inc", B)]);
    let result = parse_source(ROOT, "root.qasm", &mut r);
    let map = &result.source_map;
    let (r_len, a_len) = (ROOT.len() as u32, A.len() as u32);
    assert_eq!(map.find_by_offset(0).unwrap().name, "root.qasm");
    assert_eq!(map.find_by_offset(r_len - 1).unwrap().name, "root.qasm");
    assert_eq!(map.find_by_offset(r_len).unwrap().name, "a.inc");
    assert_eq!(map.find_by_offset(r_len + a_len).unwrap().name, "b.inc");
    assert_eq!(map.find_by_offset(u32::MAX).unwrap().name, "b.inc");
    assert_eq!(map.find_by_name("a.inc").unwrap().offset, r_len);
    assert!(map.find_by_name("c.inc").is_none());
    assert_eq!(map.offset_for("b.inc"), r_len + a_len);
    assert_eq!(map.offset_for("c.inc"), 0);
    assert!(SourceMap::new(vec![]).find_by_offset(0).is_none());
}

#[test]
fn errors_of_included_sources_are_moved_too() {
    let mut r = resolver(&[("a.inc", "ok;\n+ ;\n")]);
    let root = "include \"a.inc\";\n* 1;\n";
    let result = parse_source(root, "root.qasm", &mut r);
    assert!(result.has_errors());
    let off = root.len() as u32;
    assert_eq!(
        result.errors(),
        vec![Error(ErrorKind::Rule(
            "expression",
            qasm3_front::lex::TokenKind::ClosedBinOp(qasm3_front::lex::ClosedBinOp::Star),
            Span { lo: 17, hi: 18 }
        ), None)]
    );
    let all = result.all_errors();
    assert_eq!(all.len(), 2);
    assert_eq!(all[0], result.errors()[0]);
    assert_eq!(
        all[1],
        Error(ErrorKind::Rule(
            "expression",
            qasm3_front::lex::TokenKind::ClosedBinOp(qasm3_front::lex::ClosedBinOp::Plus),
            Span { lo: off + 4, hi: off + 5 }
        ), None)
    );
    assert_eq!(result.source.all_errors(), all);
    assert_eq!(result.source.includes()[0].errors(), vec![all[1].clone()]);
}

#[test]
fn a_source_that_cannot_be_read_is_one_error() {
    let mut r = resolver(&[("b.inc", B)]);
    let root = "include \"missing.inc\";\ninclude \"b.inc\";\nx;";
    let result = parse_source(root, "root.qasm", &mut r);
    assert!(result.has_errors());
    assert!(result.errors().is_empty());
    let includes = result.source.includes();
    assert_eq!(includes.len(), 2);
    let missing = &includes[0];
    assert_eq!(missing.path(), "missing.inc");
    assert_eq!(missing.source(), "");
    assert_eq!(missing.program().statements.len(), 0);
    // its empty program stands where its empty text stands in the map
    let at = root.len() as u32;
    assert_eq!(missing.program().span, Span { lo: at, hi: at });
    assert_eq!(
        missing.errors(),
        vec![Error(ErrorKind::IO("no source of that name".to_string()), None)]
    );
    assert!(missing.has_errors());
    // the next inclusion is read all the same
    assert_eq!(includes[1].path(), "b.inc");
    assert!(!includes[1].has_errors());
    assert_eq!(result.all_errors().len(), 1);
}

#[test]
fn the_standard_library_is_not_read() {
    let mut r = resolver(&[]);
    let root = "include \"stdgates.inc\";\ninclude \"QISKIT_stdgates.inc\";\nx;";
    let result = parse_source(root, "root.qasm", &mut r);
    assert!(!result.has_errors());
    assert!(result.source.includes().is_empty());
    assert_eq!(result.source.program().statements.len(), 3);
    assert_eq!(result.source_map.sources.len(), 1);
}

#[test]
fn a_source_that_includes_itself_is_an_error() {
    let mut r = resolver(&[("a.inc", "include \"b.inc\";"), ("b.inc", "include \"a.inc\";")]);
    let result = parse_source("include \"a.inc\";", "root.qasm", &mut r);
    let a = &result.source.includes()[0];
    let b = &a.includes()[0];
    let again = &b.includes()[0];
    assert_eq!(again.path(), "a.inc");
    assert_eq!(io_message(&again.errors()[0]), "cyclic include");
    assert!(again.includes().is_empty());
    assert_eq!(result.all_errors().len(), 1);

    let mut r = resolver(&[("root.qasm", "x;")]);
    let result = parse_source("include \"root.qasm\";", "root.qasm", &mut r);
    assert_eq!(io_message(&result.source.includes()[0].errors()[0]), "cyclic include");
}

#[test]
fn a_source_may_be_included_twice() {
    let mut r = resolver(&[("a.inc", "include \"c.inc\";"), ("b.inc", "include \"c.inc\";"), ("c.inc", "c;")]);
    let root = "include \"a.inc\";\ninclude \"b.inc\";\n";
    let result = parse_source(root, "root.qasm", &mut r);
    assert!(!result.has_errors());
    let names: Vec<&str> = result.source_map.sources.iter().map(|s| s.name.as_str()).collect();
    assert_eq!(names, ["root.qasm", "a.inc", "c.inc", "b.inc", "c.inc"]);
    // both stand at the offset of the first source of their name
    let first = result.source_map.find_by_name("c.inc").unwrap().offset;
    let one = &result.source.includes()[0].includes()[0];
    let two = &result.source.includes()[1].includes()[0];
    assert_eq!(one.program().span.lo, first);
    assert_eq!(two.program().span.lo, first);
}

struct Endless;

impl SourceResolver for Endless {
    fn resolve(&mut self, path: &str) -> Result<(String, String), String> {
        Ok((format!("{path}x"), format!("include \"{path}x\";")))
    }
}

#[test]
fn inclusions_end_at_the_depth_limit() {
    let result = parse_source("include \"a\";", "root", &mut Endless);
    let mut depth = 0;
    let mut node = &result.source;
    while !node.includes().is_empty() {
        node = &node.includes()[0];
        depth += 1;
    }
    assert_eq!(depth, INCLUDE_DEPTH_LIMIT + 1);
    assert_eq!(io_message(&node.errors()[0]), "includes are nested too deeply");
    assert_eq!(result.all_errors().len(), 1);
}

#[test]
fn the_steps_of_the_resolution() {
    let mut r = resolver(&[("a.inc", A), ("b.inc", B)]);
    let mut ctx = SourceResolverContext::new();
    let (program, errors) = parse(ROOT);
    let included = parse_includes(&program, &mut r, &mut ctx, 1);
    assert!(errors.is_empty());
    assert_eq!(included.len(), 1);
    // b.inc lies one level too deep
    assert_eq!(io_message(&included[0].includes()[0].errors()[0]), "includes are nested too deeply");

    let (program, errors, included) = parse_source_and_includes(ROOT, &mut r, &mut ctx, 2);
    assert_eq!(program.statements.len(), 2);
    assert!(errors.is_empty());
    assert!(!included[0].has_errors());

    let source = parse_qasm_source(ROOT, "root", &mut r, &mut ctx, 2);
    assert_eq!(source.path(), "root");
    assert_eq!(source.includes()[0].includes()[0].source(), B);

    let file = parse_qasm_file("b.inc", &mut r, &mut ctx, 1);
    assert_eq!(file.source(), B);
    let none = parse_qasm_file("none.inc", &mut r, &mut ctx, 1);
    assert_eq!(none.path(), "none.inc");

    let failed = resolved_source("p", Err("denied".to_string()), &mut r, &mut ctx, 3);
    assert_eq!(failed.path(), "p");
    assert_eq!(io_message(&failed.errors()[0]), "denied");
    let read = resolved_source("p", Ok(("canonical/p".to_string(), "q;".to_string())), &mut r, &mut ctx, 3);
    assert_eq!(read.path(), "canonical/p");
    assert_eq!(read.program().statements.len(), 1);
    ctx.push_current_file("canonical/p");
    assert!(ctx.is_active("canonical/p"));
    let cyclic = resolved_source("p", Ok(("canonical/p".to_string(), "q;".to_string())), &mut r, &mut ctx, 3);
    assert_eq!(io_message(&cyclic.errors()[0]), "cyclic include");
    ctx.pop_current_file();
    assert!(!ctx.is_active("canonical/p"));
}

#[test]
fn sources_by_hand() {
    let (program, errors) = parse("a;");
    let (child_program, _) = parse("b b");
    let child = QasmSource::new("b b", "child", child_program, vec![Error(ErrorKind::IO("e".to_string()), None)], vec![]);
    let mut root = QasmSource::new("a;", "root", program, errors, vec![child]);
    assert!(root.has_errors());
    assert!(root.errors().is_empty());
    assert_eq!(root.all_errors().len(), 1);
    let mut files = vec![("first".to_string(), "1".to_string())];
    collect_source_files(&root, &mut files);
    assert_eq!(
        files,
        vec![
            ("first".to_string(), "1".to_string()),
            ("root".to_string(), "a;".to_string()),
            ("child".to_string(), "b b".to_string())
        ]
    );
    root.includes_mut().clear();
    assert!(!root.has_errors());
    let map = create_source_map(&root);
    assert_eq!(map.sources.len(), 1);
    let moved = update_offsets(&SourceMap::new(vec![("x".to_string(), "12345".to_string()), ("root".to_string(), "a;".to_string())]), root);
    assert_eq!(moved.program().span, Span { lo: 5, hi: 7 });
    let result = QasmParseResult::new(moved);
    assert_eq!(result.source.program().span, Span { lo: 5, hi: 7 });
}

#[test]
fn offsets_wrap_at_32_bits() {
    assert_eq!(Span { lo: 1, hi: 2 }.with_offset(10), Span { lo: 11, hi: 12 });
    assert_eq!(Span { lo: u32::MAX, hi: u32::MAX }.with_offset(2), Span { lo: 1, hi: 1 });
    assert_eq!(Span::empty(), Span { lo: 0, hi: 0 });
    assert_eq!(Span::default(), Span { lo: 0, hi: 0 });
    let e = Error::new(ErrorKind::Escape('q', Span { lo: 3, hi: 4 })).with_offset(100);
    assert_eq!(e, Error(ErrorKind::Escape('q', Span { lo: 103, hi: 104 }), None));
    let io = Error::new(ErrorKind::IO("m".to_string())).with_offset(100);
    assert_eq!(io, Error(ErrorKind::IO("m".to_string()), None));
    assert_eq!(io.clone(), io);
    let hinted = Error::new(ErrorKind::MissingSeqEntry(Span { lo: 1, hi: 1 }))
        .with_help("remove the comma".to_string());
    assert_eq!(hinted.1.as_deref(), Some("remove the comma"));
    assert_eq!(hinted.clone(), hinted);
    assert_eq!(
        hinted.with_offset(4),
        Error(
            ErrorKind::MissingSeqEntry(Span { lo: 5, hi: 5 }),
            Some("remove the comma".to_string())
        )
    );
}

#[test]
fn entry_points() {
    let unit = parse_raw_qasm_as_fragments("x;\ninclude \"a.inc\";", "frag.qasm");
    assert_eq!(
        unit.config,
        CompilerConfig {
            qubit_semantics: QubitSemantics::Qiskit,
            output_semantics: OutputSemantics::OpenQasm,
            program_ty: ProgramType::Fragments,
            operation_name: None,
            namespace: None,
        }
    );
    assert_eq!(unit.parse.source.path(), "frag.qasm");
    assert_eq!(unit.parse.source.program().statements.len(), 2);
    // nothing can be included
    assert_eq!(unit.parse.all_errors().len(), 1);

    let unit = parse_raw_qasm_as_operation("x;", "Op", "op.qasm");
    assert_eq!(unit.config.program_ty, ProgramType::Operation);
    assert_eq!(unit.config.operation_name.as_deref(), Some("Op"));
    assert_eq!(unit.config.qubit_semantics, QubitSemantics::Qiskit);
    assert_eq!(unit.config.output_semantics, OutputSemantics::OpenQasm);
    assert!(!unit.parse.has_errors());

    let config = CompilerConfig::new(
        QubitSemantics::QSharp,
        OutputSemantics::ResourceEstimation,
        ProgramType::File,
        Some("Main".to_string()),
        Some("ns".to_string()),
    );
    let unit = convert_with_config("include \"stdgates.inc\";", "f.qasm", config);
    assert_eq!(unit.config.namespace.as_deref(), Some("ns"));
    assert_eq!(unit.config.program_ty, ProgramType::File);
    assert!(!unit.parse.has_errors());
}

struct Recording {
    inner: InMemorySourceResolver,
    asked: Vec<String>,
}

impl SourceResolver for Recording {
    fn resolve(&mut self, path: &str) -> Result<(String, String), String> {
        self.asked.push(path.to_string());
        self.inner.resolve(path)
    }
}

#[test]
fn the_resolver_is_asked_once_for_each_inclusion() {
    let mut r = Recording { inner: resolver(&[("a.inc", A), ("b.inc", B)]), asked: vec![] };
    let result = parse_source(ROOT, "root.qasm", &mut r);
    assert!(!result.has_errors());
    // in the order of the inclusions, and never for the root
    assert_eq!(r.asked, vec!["a.inc", "b.inc"]);
    let a = &result.source.includes()[0];
    assert_eq!((a.path().as_str(), a.source()), ("a.inc", A));
    assert_eq!(a.includes().len(), 1);
    let b = &a.includes()[0];
    assert_eq!((b.path().as_str(), b.source()), ("b.inc", B));
    assert_eq!(b.includes().len(), 0);

    let mut r = Recording { inner: resolver(&[]), asked: vec![] };
    let result = parse_source("include \"x\";\ninclude \"stdgates.inc\";\ninclude \"x\";", "r", &mut r);
    assert_eq!(r.asked, vec!["x", "x"]);
    assert_eq!(result.all_errors().len(), 2);
    assert_eq!(io_message(&result.all_errors()[0]), "no source of that name");
}
