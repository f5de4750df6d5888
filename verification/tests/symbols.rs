use qasm3_front::parser::ast::BinOp;
use qasm3_front::semantic::ast::{Expr, ExprKind, FloatBits, LiteralKind};
use qasm3_front::semantic::symbols::{
    is_std_gate, IOKind, Scope, ScopeKind, Symbol, SymbolError, SymbolId, SymbolTable, EULER_BITS,
    PI_BITS, TAU_BITS,
};
use qasm3_front::semantic::types::Type;
use qasm3_front::span::Span;
use qasm3_front::types::Type as TargetType;
use std::rc::Rc;

fn var(name: &str, ty: Type) -> Symbol {
    Symbol::new(name, Span { lo: 1, hi: 2 }, ty, TargetType::Int(false), IOKind::Default)
}

fn io(name: &str, ty: Type, kind: IOKind) -> Symbol {
    Symbol::new(name, Span { lo: 1, hi: 2 }, ty, TargetType::Int(false), kind)
}

#[test]
fn fresh_table_holds_the_eight_builtins() {
    let table = SymbolTable::new();
    assert_eq!(table.len(), 8);
    let names = ["U", "gphase", "pi", "π", "tau", "τ", "euler", "ℇ"];
    for (i, name) in names.iter().enumerate() {
        let (id, symbol) = table.get_symbol_by_name(name).unwrap();
        assert_eq!(id, SymbolId(i as u32));
        assert_eq!(symbol.name, *name);
        assert_eq!(symbol.is_const(), i >= 2);
        assert_eq!(table.index(id).name, *name);
    }
}

#[test]
fn builtin_constants_carry_their_values() {
    assert_eq!(f64::from_bits(PI_BITS), std::f64::consts::PI);
    assert_eq!(f64::from_bits(TAU_BITS), std::f64::consts::TAU);
    assert_eq!(f64::from_bits(EULER_BITS), std::f64::consts::E);
    let table = SymbolTable::new();
    let expected = [
        ("pi", PI_BITS),
        ("π", PI_BITS),
        ("tau", TAU_BITS),
        ("τ", TAU_BITS),
        ("euler", EULER_BITS),
        ("ℇ", EULER_BITS),
    ];
    for (name, bits) in expected {
        let (_, symbol) = table.get_symbol_by_name(name).unwrap();
        assert_eq!(symbol.ty, Type::Float(None, true));
        assert_eq!(symbol.qsharp_ty, TargetType::Double(true));
        let expr = symbol.get_const_expr();
        assert_eq!(*expr.kind, ExprKind::Lit(LiteralKind::Float(FloatBits(bits))));
        assert_eq!(expr.ty, Type::Float(None, true));
    }
    let (_, u) = table.get_symbol_by_name("U").unwrap();
    assert_eq!(u.ty, Type::Gate(3, 1));
    let (_, gphase) = table.get_symbol_by_name("gphase").unwrap();
    assert_eq!(gphase.ty, Type::Gate(1, 0));
}

#[test]
fn successor_adds_one() {
    assert_eq!(SymbolId(0).successor(), SymbolId(1));
    assert_eq!(SymbolId(41).successor(), SymbolId(42));
    assert_eq!(SymbolId::default(), SymbolId(0));
    assert_eq!(SymbolId::from(7u32), SymbolId(7));
    assert_eq!(u32::from(SymbolId(7)), 7);
    assert_eq!(usize::from(SymbolId(7)), 7);
    assert_eq!(SymbolTable::default().len(), 8);
}

#[test]
fn insert_mints_dense_identifiers() {
    let mut table = SymbolTable::new();
    assert_eq!(table.insert_symbol(var("a", Type::Int(None, false))), Ok(SymbolId(8)));
    assert_eq!(table.insert_symbol(var("b", Type::Int(None, false))), Ok(SymbolId(9)));
    assert_eq!(table.len(), 10);
    assert_eq!(table.index(SymbolId(9)).name, "b");
}

#[test]
fn redeclaration_in_one_scope_fails() {
    let mut table = SymbolTable::new();
    assert_eq!(table.insert_symbol(var("a", Type::Int(None, false))), Ok(SymbolId(8)));
    assert_eq!(
        table.insert_symbol(var("a", Type::Bool(false))),
        Err(SymbolError::AlreadyExists)
    );
    assert_eq!(table.len(), 9);
    assert_eq!(table.insert_symbol(var("pi", Type::Bool(false))), Err(SymbolError::AlreadyExists));
    // another scope may declare the name again
    table.push_scope(ScopeKind::Block);
    assert_eq!(table.insert_symbol(var("a", Type::Bool(false))), Ok(SymbolId(9)));
    let (id, symbol) = table.get_symbol_by_name("a").unwrap();
    assert_eq!(id, SymbolId(9));
    assert_eq!(symbol.ty, Type::Bool(false));
    table.pop_scope();
    let (id, _) = table.get_symbol_by_name("a").unwrap();
    assert_eq!(id, SymbolId(8));
}

#[test]
fn try_insert_or_get_existing_recovers() {
    let mut table = SymbolTable::new();
    assert_eq!(table.try_insert_or_get_existing(var("a", Type::Int(None, false))), Ok(SymbolId(8)));
    assert_eq!(table.try_insert_or_get_existing(var("a", Type::Bool(false))), Err(SymbolId(8)));
    assert_eq!(table.try_insert_or_get_existing(var("tau", Type::Bool(false))), Err(SymbolId(4)));
    assert_eq!(table.len(), 9);
}

#[test]
fn unresolved_name_gets_an_error_symbol() {
    let mut table = SymbolTable::new();
    let span = Span { lo: 5, hi: 9 };
    let found = table.try_get_existing_or_insert_err_symbol("pi", span);
    assert_eq!(found.unwrap().0, SymbolId(2));
    let made = table.try_get_existing_or_insert_err_symbol("nope", span);
    let (id, symbol) = made.unwrap_err();
    assert_eq!(id, SymbolId(8));
    assert_eq!(symbol.name, "nope");
    assert_eq!(symbol.span, span);
    assert_eq!(symbol.ty, Type::Error);
    assert_eq!(symbol.qsharp_ty, TargetType::Error);
    assert_eq!(table.len(), 9);
    // it is in the index, and in no scope
    assert_eq!(table.index(SymbolId(8)).name, "nope");
    assert!(table.get_symbol_by_name("nope").is_none());
}

#[test]
fn loop_variable_is_visible_in_nested_block() {
    let mut table = SymbolTable::new();
    table.push_scope(ScopeKind::Loop);
    let id = table.insert_symbol(var("i", Type::Int(None, false))).unwrap();
    table.push_scope(ScopeKind::Block);
    assert_eq!(table.get_symbol_by_name("i").unwrap().0, id);
}

#[test]
fn loop_variable_is_hidden_in_nested_subroutine() {
    let mut table = SymbolTable::new();
    table.push_scope(ScopeKind::Loop);
    table.insert_symbol(var("i", Type::Int(None, false))).unwrap();
    let c = table.insert_symbol(var("c", Type::Int(None, true))).unwrap();
    table.push_scope(ScopeKind::Function(Rc::new(Type::Void)));
    assert!(table.get_symbol_by_name("i").is_none());
    // a const of the loop body is still seen
    assert_eq!(table.get_symbol_by_name("c").unwrap().0, c);
    table.pop_scope();
    table.push_scope(ScopeKind::Gate);
    assert!(table.get_symbol_by_name("i").is_none());
}

#[test]
fn const_global_is_visible_in_subroutine_and_gate() {
    let mut table = SymbolTable::new();
    let c = table.insert_symbol(var("c", Type::UInt(Some(8), true))).unwrap();
    let v = table.insert_symbol(var("v", Type::UInt(Some(8), false))).unwrap();
    let g = table.insert_symbol(var("g", Type::Gate(0, 1))).unwrap();
    let f = table
        .insert_symbol(var("f", Type::Function(Rc::new(vec![]), Rc::new(Type::Void))))
        .unwrap();
    // with no subroutine or gate open, everything global is seen
    table.push_scope(ScopeKind::Block);
    assert_eq!(table.get_symbol_by_name("v").unwrap().0, v);
    table.pop_scope();
    for kind in [ScopeKind::Function(Rc::new(Type::Void)), ScopeKind::Gate] {
        table.push_scope(kind);
        table.push_scope(ScopeKind::Block);
        assert_eq!(table.get_symbol_by_name("c").unwrap().0, c);
        assert_eq!(table.get_symbol_by_name("g").unwrap().0, g);
        assert_eq!(table.get_symbol_by_name("f").unwrap().0, f);
        assert_eq!(table.get_symbol_by_name("pi").unwrap().0, SymbolId(2));
        assert_eq!(table.get_symbol_by_name("U").unwrap().0, SymbolId(0));
        assert!(table.get_symbol_by_name("v").is_none());
        table.pop_scope();
        table.pop_scope();
    }
}

#[test]
fn locals_of_a_subroutine_are_visible_in_its_blocks() {
    let mut table = SymbolTable::new();
    table.push_scope(ScopeKind::Function(Rc::new(Type::Int(None, false))));
    let p = table.insert_symbol(var("p", Type::Int(None, false))).unwrap();
    assert_eq!(table.get_symbol_by_name("p").unwrap().0, p);
    table.push_scope(ScopeKind::Loop);
    table.push_scope(ScopeKind::Block);
    assert_eq!(table.get_symbol_by_name("p").unwrap().0, p);
}

#[test]
fn hidden_declaration_does_not_stop_the_walk() {
    let mut table = SymbolTable::new();
    let outer = table.insert_symbol(var("x", Type::Int(None, true))).unwrap();
    table.push_scope(ScopeKind::Block);
    table.insert_symbol(var("x", Type::Int(None, false))).unwrap();
    table.push_scope(ScopeKind::Function(Rc::new(Type::Void)));
    assert_eq!(table.get_symbol_by_name("x").unwrap().0, outer);
}

#[test]
fn scope_queries() {
    let mut table = SymbolTable::new();
    assert!(table.is_current_scope_global());
    assert!(table.is_scope_rooted_in_global());
    assert!(!table.is_scope_rooted_in_subroutine());
    assert!(!table.is_scope_rooted_in_gate_or_subroutine());
    assert!(!table.is_scope_rooted_in_loop_scope());
    assert!(table.get_subroutine_return_ty().is_none());

    table.push_scope(ScopeKind::Loop);
    assert!(!table.is_current_scope_global());
    assert!(table.is_scope_rooted_in_loop_scope());
    assert!(table.is_scope_rooted_in_global());

    table.push_scope(ScopeKind::Function(Rc::new(Type::Bool(false))));
    assert!(!table.is_scope_rooted_in_loop_scope());
    assert!(table.is_scope_rooted_in_subroutine());
    assert!(table.is_scope_rooted_in_gate_or_subroutine());
    assert!(!table.is_scope_rooted_in_global());
    assert_eq!(*table.get_subroutine_return_ty().unwrap(), Type::Bool(false));

    table.push_scope(ScopeKind::Block);
    table.push_scope(ScopeKind::Function(Rc::new(Type::Void)));
    assert_eq!(*table.get_subroutine_return_ty().unwrap(), Type::Void);
    table.pop_scope();
    table.push_scope(ScopeKind::Loop);
    table.push_scope(ScopeKind::Block);
    assert!(table.is_scope_rooted_in_loop_scope());
    assert_eq!(*table.get_subroutine_return_ty().unwrap(), Type::Bool(false));

    let mut gates = SymbolTable::new();
    gates.push_scope(ScopeKind::Gate);
    assert!(!gates.is_scope_rooted_in_subroutine());
    assert!(gates.is_scope_rooted_in_gate_or_subroutine());
    assert!(gates.get_subroutine_return_ty().is_none());
}

#[test]
fn symbol_outside_innermost_gate_or_function() {
    let mut table = SymbolTable::new();
    let g = table.insert_symbol(var("g", Type::Int(None, true))).unwrap();
    assert!(!table.is_symbol_outside_most_inner_gate_or_function_scope(g));
    table.push_scope(ScopeKind::Block);
    assert!(!table.is_symbol_outside_most_inner_gate_or_function_scope(g));
    table.push_scope(ScopeKind::Function(Rc::new(Type::Void)));
    let p = table.insert_symbol(var("p", Type::Int(None, false))).unwrap();
    table.push_scope(ScopeKind::Block);
    let q = table.insert_symbol(var("q", Type::Int(None, false))).unwrap();
    assert!(table.is_symbol_outside_most_inner_gate_or_function_scope(g));
    assert!(!table.is_symbol_outside_most_inner_gate_or_function_scope(p));
    assert!(!table.is_symbol_outside_most_inner_gate_or_function_scope(q));
    assert!(table.is_symbol_outside_most_inner_gate_or_function_scope(SymbolId(0)));
}

#[test]
fn inputs_and_outputs() {
    let mut table = SymbolTable::new();
    assert!(table.get_input().is_none());
    assert!(table.get_output().is_none());

    table.insert_symbol(var("q", Type::Qubit)).unwrap();
    table.insert_symbol(var("a", Type::Int(None, false))).unwrap();
    table.insert_symbol(io("in1", Type::Float(None, false), IOKind::Input)).unwrap();
    table.insert_symbol(var("b", Type::BitArray(4, false))).unwrap();
    table.insert_symbol(io("in2", Type::Bool(false), IOKind::Input)).unwrap();
    table.insert_symbol(var("d", Type::Duration(false))).unwrap();

    let inputs: Vec<String> = table.get_input().unwrap().iter().map(|s| s.name.clone()).collect();
    assert_eq!(inputs, ["in1", "in2"]);
    // no output is declared: the outputs are inferred, the built-in constants
    // are not among them
    let outputs: Vec<String> =
        table.get_output().unwrap().iter().map(|s| s.name.clone()).collect();
    assert_eq!(outputs, ["a", "b"]);

    // a declared output takes the place of the inferred ones
    table.insert_symbol(io("out", Type::Bit(false), IOKind::Output)).unwrap();
    let outputs: Vec<String> =
        table.get_output().unwrap().iter().map(|s| s.name.clone()).collect();
    assert_eq!(outputs, ["out"]);

    // symbols of inner scopes are no inputs or outputs
    table.push_scope(ScopeKind::Block);
    table.insert_symbol(io("inner", Type::Bit(false), IOKind::Input)).unwrap();
    let inputs: Vec<String> = table.get_input().unwrap().iter().map(|s| s.name.clone()).collect();
    assert_eq!(inputs, ["in1", "in2"]);
}

#[test]
fn const_symbol_carries_its_expression() {
    let plain = var("x", Type::Int(None, true));
    assert!(!plain.is_const());
    let two = Expr {
        span: Span { lo: 0, hi: 1 },
        kind: Box::new(ExprKind::Lit(LiteralKind::Int(2))),
        ty: Type::Int(None, true),
    };
    let symbol = plain.with_const_expr(Rc::new(two));
    assert!(symbol.is_const());
    assert!(symbol.ty.is_const());
    assert_eq!(symbol.ty, Type::Int(None, true));
    assert_eq!(*symbol.get_const_expr().kind, ExprKind::Lit(LiteralKind::Int(2)));
    assert_eq!(symbol.name, "x");
    let d = Symbol::default();
    assert_eq!(d.name, "");
    assert_eq!(d.ty, Type::Error);
    assert_eq!(d.io_kind, IOKind::Default);
    assert_eq!(d.qsharp_ty, TargetType::Tuple(Rc::new(vec![])));
    assert!(!d.is_const());
}

#[test]
fn scope_on_its_own() {
    let mut scope = Scope::new(ScopeKind::Block);
    let a = Rc::new(var("a", Type::Bool(false)));
    assert_eq!(scope.insert_symbol(SymbolId(3), a.clone()), Ok(()));
    assert_eq!(scope.insert_symbol(SymbolId(4), a), Err(SymbolError::AlreadyExists));
    assert_eq!(scope.get_symbol_by_name("a").unwrap().0, SymbolId(3));
    assert!(scope.get_symbol_by_name("b").is_none());
    assert!(scope.contains_id(SymbolId(3)));
    assert!(!scope.contains_id(SymbolId(4)));
}

#[test]
fn standard_gates() {
    for name in ["x", "h", "CX", "u3", "swap", "rrx", "xx_minus_yy", "ccz", "id"] {
        assert!(is_std_gate(name), "{name}");
    }
    for name in ["", "X", "cx2", "U", "gphase", "foo"] {
        assert!(!is_std_gate(name), "{name}");
    }
}

#[test]
fn io_kind_names() {
    assert_eq!(IOKind::Default.to_string(), "Default");
    assert_eq!(IOKind::Input.to_string(), "Input");
    assert_eq!(IOKind::Output.to_string(), "Output");
    assert_eq!(IOKind::default(), IOKind::Default);
}
