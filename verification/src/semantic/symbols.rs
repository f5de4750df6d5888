//! The symbol table: a stack of scopes whose kinds decide which
//! declarations a name may resolve to.

use crate::collections::id_index;
use crate::collections::id_index_contains;
use crate::collections::id_index_insert;
use crate::collections::id_index_new;
use crate::collections::name_index;
use crate::collections::name_set;
use crate::collections::name_set_contains;
use crate::collections::name_set_insert;
use crate::collections::name_set_new;
use crate::collections::name_index_get;
use crate::collections::name_index_insert;
use crate::collections::name_index_new;
use crate::collections::rc_share;
use crate::semantic::ast::Expr;
use crate::semantic::ast::ExprKind;
use crate::semantic::ast::FloatBits;
use crate::semantic::ast::LiteralKind;
use crate::semantic::types::Type;
use crate::span::Span;
use crate::text::str_eq;
use rustc_hash::FxHashMap;
use rustc_hash::FxHashSet;
use std::rc::Rc;
use vstd::prelude::*;

verus! {

/// The identifier of a symbol: a dense index, minted once for each symbol
/// that a table takes in.
#[derive(Debug, Clone, Copy, PartialEq, Eq, Structural, PartialOrd, Ord, Hash)]
pub struct SymbolId(pub u32);

impl SymbolId {
    /// The identifier that follows this one.
    pub fn successor(self) -> (r: SymbolId)
        requires
            self.0 < u32::MAX,
        ensures
            r.0 == self.0 + 1,
    {
        SymbolId(self.0 + 1)
    }
}

impl Default for SymbolId {
    fn default() -> (r: SymbolId)
        ensures
            r == SymbolId(0),
    {
        SymbolId(0)
    }
}

/// The error of an insertion into a scope.
#[derive(Debug, Clone, Copy, PartialEq, Eq, Structural)]
pub enum SymbolError {
    /// The scope already declares a symbol of that name.
    AlreadyExists,
}

/// Whether a symbol is an input of the program, an output, or neither.
#[derive(Copy, Debug, Clone, PartialEq, Eq, Structural)]
pub enum IOKind {
    /// The declaration named no kind.
    Default,
    Input,
    Output,
}

impl Default for IOKind {
    fn default() -> (r: IOKind)
        ensures
            r == IOKind::Default,
    {
        IOKind::Default
    }
}

impl IOKind {
    /// The name of the kind.
    pub fn to_string(&self) -> (r: String)
        ensures
            r@ == (match *self {
                IOKind::Default => "Default"@,
                IOKind::Input => "Input"@,
                IOKind::Output => "Output"@,
            }),
    {
        match self {
            IOKind::Default => "Default".to_owned(),
            IOKind::Input => "Input".to_owned(),
            IOKind::Output => "Output".to_owned(),
        }
    }
}

/// A declared name with its types, its place in the source, and the
/// expression that gives its value if it is const.
#[derive(Debug, Clone)]
pub struct Symbol {
    pub name: String,
    pub span: Span,
    pub ty: Type,
    pub qsharp_ty: crate::types::Type,
    pub io_kind: IOKind,
    /// The whole unevaluated expression of a const symbol.
    pub const_expr: Option<Rc<Expr>>,
}

impl Symbol {
    /// A symbol that carries a const expression is const: its own type is
    /// const, and so is the type of the expression.
    pub open spec fn wf(self) -> bool {
        self.const_expr matches Some(e) ==> self.ty.spec_is_const() && e.ty.spec_is_const()
    }

    /// Whether the symbol carries a const expression.
    pub open spec fn spec_is_const(&self) -> bool {
        self.const_expr is Some
    }

    /// A symbol without a const expression.
    pub fn new(name: &str, span: Span, ty: Type, qsharp_ty: crate::types::Type, io_kind: IOKind) -> (r:
        Symbol)
        ensures
            r.name@ == name@,
            r.span == span,
            r.ty == ty,
            r.qsharp_ty == qsharp_ty,
            r.io_kind == io_kind,
            r.const_expr is None,
            r.wf(),
    {
        Symbol { name: name.to_owned(), span, ty, qsharp_ty, io_kind, const_expr: None }
    }

    /// The same symbol with `value` attached as its const expression.
    /// Only a symbol of a const type takes one, and only an expression of
    /// a const type is one.
    pub fn with_const_expr(self, value: Rc<Expr>) -> (r: Symbol)
        requires
            self.ty.spec_is_const(),
            value.ty.spec_is_const(),
        ensures
            r.name == self.name,
            r.span == self.span,
            r.ty == self.ty,
            r.qsharp_ty == self.qsharp_ty,
            r.io_kind == self.io_kind,
            r.const_expr == Some(value),
            r.spec_is_const(),
            r.ty.spec_is_const(),
            r.wf(),
    {
        Symbol {
            name: self.name,
            span: self.span,
            ty: self.ty,
            qsharp_ty: self.qsharp_ty,
            io_kind: self.io_kind,
            const_expr: Some(value),
        }
    }

    /// Whether the symbol carries a const expression.
    #[verifier::when_used_as_spec(spec_is_const)]
    pub fn is_const(&self) -> (r: bool)
        ensures
            r == self.spec_is_const(),
    {
        self.const_expr.is_some()
    }

    /// The const expression of a const symbol.
    pub fn get_const_expr(&self) -> (r: Rc<Expr>)
        requires
            self.spec_is_const(),
        ensures
            Some(r) == self.const_expr,
    {
        match &self.const_expr {
            Some(val) => rc_share(val),
            None => {
                proof {
                    assert(false);
                }
                Rc::new(Expr { span: Span::empty(), kind: Box::new(ExprKind::Error), ty: Type::Error })
            },
        }
    }
}

impl Default for Symbol {
    /// A nameless symbol of the error type, lowered to the unit type.
    fn default() -> (r: Symbol)
        ensures
            r.name@.len() == 0,
            r.span == (Span { lo: 0, hi: 0 }),
            r.ty == Type::Error,
            r.qsharp_ty matches crate::types::Type::Tuple(items) && items@.len() == 0,
            r.io_kind == IOKind::Default,
            r.const_expr is None,
            r.wf(),
    {
        Symbol {
            name: String::new(),
            span: Span::empty(),
            ty: Type::Error,
            qsharp_ty: crate::types::Type::Tuple(Rc::new(Vec::new())),
            io_kind: IOKind::Default,
            const_expr: None,
        }
    }
}

/// The kind of a scope, which decides what is visible across it.
#[derive(Debug, Clone, PartialEq, Eq)]
pub enum ScopeKind {
    /// The outermost scope, the only one in which gates, qubits and arrays
    /// can be declared.
    Global,
    /// The body of a subroutine, with its return type.
    Function(Rc<Type>),
    /// The body of a gate.
    Gate,
    Block,
    Loop,
}

impl ScopeKind {
    /// Whether the scope is the body of a subroutine or of a gate.
    pub open spec fn is_boundary(self) -> bool {
        self is Function || self is Gate
    }
}

/// The declarations of one scope, in the order in which they were made.
pub struct Scope {
    /// From each declared name to its position in `entries`.
    name_to_slot: FxHashMap<String, usize>,
    /// From each identifier to the position in `entries` of the last
    /// declaration under it.
    id_to_slot: FxHashMap<u32, usize>,
    /// The declarations, in the order in which they were made.
    entries: Vec<(SymbolId, Rc<Symbol>)>,
    kind: ScopeKind,
}

impl Scope {
    /// The declarations of the scope, in the order in which they were made.
    pub closed spec fn entries(self) -> Seq<(SymbolId, Rc<Symbol>)> {
        self.entries@
    }

    /// The kind of the scope.
    pub closed spec fn kind(self) -> ScopeKind {
        self.kind
    }

    /// The two indexes agree with the declarations.
    pub closed spec fn wf(self) -> bool {
        &&& forall|i: int|
            0 <= i < self.entries@.len() ==> id_index(self.id_to_slot).contains_key(
                (#[trigger] self.entries@[i].0).0,
            )
        &&& forall|id: u32| #[trigger]
            id_index(self.id_to_slot).contains_key(id) ==> {
                &&& id_index(self.id_to_slot)[id] < self.entries@.len()
                &&& (self.entries@[id_index(self.id_to_slot)[id] as int].0).0 == id
            }
        &&& forall|i: int|
            0 <= i < self.entries@.len() ==> {
                &&& name_index(self.name_to_slot).contains_key(#[trigger] self.entries@[i].1.name@)
                &&& name_index(self.name_to_slot)[self.entries@[i].1.name@] == i
            }
        &&& forall|n: Seq<char>| #[trigger]
            name_index(self.name_to_slot).contains_key(n) ==> {
                &&& name_index(self.name_to_slot)[n] < self.entries@.len()
                &&& self.entries@[name_index(self.name_to_slot)[n] as int].1.name@ == n
            }
    }

    /// Whether declaration `i` of the scope has the name `name`.
    pub open spec fn declares_at(self, i: int, name: Seq<char>) -> bool {
        0 <= i < self.entries().len() && self.entries()[i].1.name@ == name
    }

    /// Whether the scope declares `name`.
    pub open spec fn declares(self, name: Seq<char>) -> bool {
        exists|i: int| self.declares_at(i, name)
    }

    /// The declaration of `name` in this scope, if there is one.
    pub open spec fn lookup(self, name: Seq<char>) -> Option<(SymbolId, Rc<Symbol>)> {
        if self.declares(name) {
            Some(self.entries()[choose|i: int| self.declares_at(i, name)])
        } else {
            None
        }
    }

    /// Whether the scope holds a declaration with the identifier `id`.
    pub open spec fn holds_id(self, id: SymbolId) -> bool {
        exists|i: int| 0 <= i < self.entries().len() && (#[trigger] self.entries()[i]).0 == id
    }

    /// In a well-formed scope no name is declared twice.
    pub proof fn lemma_names_unique(self, i: int, j: int, name: Seq<char>)
        requires
            self.wf(),
            self.declares_at(i, name),
            self.declares_at(j, name),
        ensures
            i == j,
    {
        assert(self.entries@[i].1.name@ == name);
        assert(self.entries@[j].1.name@ == name);
    }

    /// An empty scope of the given kind.
    pub fn new(kind: ScopeKind) -> (r: Scope)
        ensures
            r.kind() == kind,
            r.entries().len() == 0,
            r.wf(),
    {
        Scope {
            name_to_slot: name_index_new(),
            id_to_slot: id_index_new(),
            entries: Vec::new(),
            kind,
        }
    }

    /// Declares `symbol` under `id`, unless the scope already declares
    /// its name.
    pub fn insert_symbol(&mut self, id: SymbolId, symbol: Rc<Symbol>) -> (r: Result<(), SymbolError>)
        requires
            old(self).wf(),
        ensures
            final(self).wf(),
            final(self).kind() == old(self).kind(),
            r is Err <==> old(self).declares(symbol.name@),
            r is Err ==> *final(self) == *old(self),
            r is Ok ==> final(self).entries() == old(self).entries().push((id, symbol)),
    {
        if name_index_get(&self.name_to_slot, symbol.name.as_str()).is_some() {
            proof {
                let slot = name_index(self.name_to_slot)[symbol.name@] as int;
                assert(self.declares_at(slot, symbol.name@));
            }
            return Err(SymbolError::AlreadyExists);
        }
        proof {
            if self.declares(symbol.name@) {
                let i = choose|i: int| self.declares_at(i, symbol.name@);
                assert(name_index(self.name_to_slot).contains_key(self.entries@[i].1.name@));
            }
        }
        let name = symbol.name.clone();
        let slot = self.entries.len();
        name_index_insert(&mut self.name_to_slot, name, slot);
        id_index_insert(&mut self.id_to_slot, id.0, slot);
        self.entries.push((id, symbol));
        proof {
            assert forall|i: int| 0 <= i < self.entries@.len() implies id_index(
                self.id_to_slot,
            ).contains_key((#[trigger] self.entries@[i].0).0) by {
                if i < slot {
                    assert(old(self).entries@[i] == self.entries@[i]);
                }
            }
            assert forall|key: u32| #[trigger]
                id_index(self.id_to_slot).contains_key(key) implies {
                &&& id_index(self.id_to_slot)[key] < self.entries@.len()
                &&& (self.entries@[id_index(self.id_to_slot)[key] as int].0).0 == key
            } by {
                if key != id.0 {
                    assert(id_index(old(self).id_to_slot).contains_key(key));
                    let at = id_index(old(self).id_to_slot)[key] as int;
                    assert(old(self).entries@[at] == self.entries@[at]);
                }
            }
            assert forall|i: int| 0 <= i < self.entries@.len() implies {
                &&& name_index(self.name_to_slot).contains_key(#[trigger] self.entries@[i].1.name@)
                &&& name_index(self.name_to_slot)[self.entries@[i].1.name@] == i
            } by {
                if i < slot {
                    assert(old(self).entries@[i] == self.entries@[i]);
                    assert(old(self).declares_at(i, self.entries@[i].1.name@));
                }
            }
        }
        Ok(())
    }

    /// The declaration of `name` in this scope, if there is one.
    pub fn get_symbol_by_name(&self, name: &str) -> (r: Option<(SymbolId, Rc<Symbol>)>)
        requires
            self.wf(),
        ensures
            r == self.lookup(name@),
    {
        match name_index_get(&self.name_to_slot, name) {
            Some(slot) => {
                proof {
                    assert(self.declares_at(slot as int, name@));
                    let i = choose|i: int| self.declares_at(i, name@);
                    self.lemma_names_unique(i, slot as int, name@);
                }
                Some((self.entries[slot].0, rc_share(&self.entries[slot].1)))
            },
            None => {
                proof {
                    if self.declares(name@) {
                        let i = choose|i: int| self.declares_at(i, name@);
                        assert(name_index(self.name_to_slot).contains_key(self.entries@[i].1.name@));
                    }
                }
                None
            },
        }
    }

    /// Whether the scope holds a declaration with the identifier `id`.
    pub fn contains_id(&self, id: SymbolId) -> (r: bool)
        requires
            self.wf(),
        ensures
            r == self.holds_id(id),
    {
        let r = id_index_contains(&self.id_to_slot, id.0);
        proof {
            if r {
                let at = id_index(self.id_to_slot)[id.0] as int;
                assert(self.entries()[at].0 == id);
            }
            if self.holds_id(id) {
                let i = choose|i: int| 0 <= i < self.entries().len() && (#[trigger] self.entries()[i]).0 == id;
                assert(id_index(self.id_to_slot).contains_key((self.entries@[i].0).0));
            }
        }
        r
    }
}

/// The bit pattern of the constant `pi`.
pub const PI_BITS: u64 = 0x400921FB54442D18;

/// The bit pattern of the constant `tau`.
pub const TAU_BITS: u64 = 0x401921FB54442D18;

/// The bit pattern of the constant `euler`.
pub const EULER_BITS: u64 = 0x4005BF0A8B145769;

/// Whether `name` is one of the six names of the built-in constants.
pub open spec fn is_builtin_constant_name(name: Seq<char>) -> bool {
    name == "pi"@ || name == "π"@ || name == "tau"@ || name == "τ"@ || name == "euler"@ || name
        == "ℇ"@
}

/// The name of the built-in symbol with the identifier `i`.
pub open spec fn builtin_name(i: int) -> Seq<char> {
    if i == 0 {
        "U"@
    } else if i == 1 {
        "gphase"@
    } else if i == 2 {
        "pi"@
    } else if i == 3 {
        "π"@
    } else if i == 4 {
        "tau"@
    } else if i == 5 {
        "τ"@
    } else if i == 6 {
        "euler"@
    } else {
        "ℇ"@
    }
}

/// The value of the built-in constant with the identifier `i`.
pub open spec fn builtin_value(i: int) -> FloatBits {
    if i == 2 || i == 3 {
        FloatBits(PI_BITS)
    } else if i == 4 || i == 5 {
        FloatBits(TAU_BITS)
    } else {
        FloatBits(EULER_BITS)
    }
}

/// Whether `e` is the declaration of the built-in symbol number `i`: the
/// gates `U` and `gphase`, then six const floats, each with the literal of
/// its value attached.
pub open spec fn is_builtin(i: int, e: (SymbolId, Rc<Symbol>)) -> bool {
    &&& e.0.0 == i
    &&& e.1.name@ == builtin_name(i)
    &&& e.1.span == (Span { lo: 0, hi: 0 })
    &&& e.1.io_kind == IOKind::Default
    &&& if i == 0 {
        &&& e.1.ty == Type::Gate(3, 1)
        &&& e.1.qsharp_ty == crate::types::Type::Callable(
            crate::types::CallableKind::Operation,
            3,
            1,
        )
        &&& e.1.const_expr is None
    } else if i == 1 {
        &&& e.1.ty == Type::Gate(1, 0)
        &&& e.1.qsharp_ty == crate::types::Type::Callable(
            crate::types::CallableKind::Operation,
            1,
            0,
        )
        &&& e.1.const_expr is None
    } else {
        &&& e.1.ty == Type::Float(None, true)
        &&& e.1.qsharp_ty == crate::types::Type::Double(true)
        &&& e.1.const_expr matches Some(x)
        &&& x.span == (Span { lo: 0, hi: 0 })
        &&& *x.kind == ExprKind::Lit(LiteralKind::Float(builtin_value(i)))
        &&& x.ty == Type::Float(None, true)
    }
}

/// The eight built-in names differ from one another.
pub proof fn lemma_builtin_names_distinct()
    ensures
        forall|i: int, j: int|
            0 <= i < 8 && 0 <= j < 8 && i != j ==> #[trigger] builtin_name(i) != #[trigger] builtin_name(j),
{
    reveal_strlit("U");
    reveal_strlit("gphase");
    reveal_strlit("pi");
    reveal_strlit("π");
    reveal_strlit("tau");
    reveal_strlit("τ");
    reveal_strlit("euler");
    reveal_strlit("ℇ");
    assert("U"@.len() == 1 && "U"@[0] == 'U');
    assert("gphase"@.len() == 6);
    assert("pi"@.len() == 2);
    assert("π"@.len() == 1 && "π"@[0] == 'π');
    assert("tau"@.len() == 3);
    assert("τ"@.len() == 1 && "τ"@[0] == 'τ');
    assert("euler"@.len() == 5);
    assert("ℇ"@.len() == 1 && "ℇ"@[0] == 'ℇ');
}

/// Whether `name` is one of the six names of the built-in constants.
fn is_builtin_constant(name: &str) -> (r: bool)
    ensures
        r == is_builtin_constant_name(name@),
{
    str_eq(name, "pi") || str_eq(name, "π") || str_eq(name, "tau") || str_eq(name, "τ") || str_eq(
        name,
        "euler",
    ) || str_eq(name, "ℇ")
}

/// The declarations among `entries` whose I/O kind is `kind`, in order.
pub open spec fn declared_io(entries: Seq<(SymbolId, Rc<Symbol>)>, kind: IOKind) -> Seq<Rc<Symbol>>
    decreases entries.len(),
{
    if entries.len() == 0 {
        Seq::empty()
    } else if entries.last().1.io_kind == kind {
        declared_io(entries.drop_last(), kind).push(entries.last().1)
    } else {
        declared_io(entries.drop_last(), kind)
    }
}

/// Whether a global symbol is an output of a program that declares none:
/// it is no built-in constant, its I/O kind was never set, and its type is
/// one that is inferred to be an output.
pub open spec fn is_inferred_output(s: Symbol) -> bool {
    !is_builtin_constant_name(s.name@) && s.io_kind == IOKind::Default
        && s.ty.spec_is_inferred_output_type()
}

/// The declarations among `entries` that are inferred outputs, in order.
pub open spec fn inferred_io(entries: Seq<(SymbolId, Rc<Symbol>)>) -> Seq<Rc<Symbol>>
    decreases entries.len(),
{
    if entries.len() == 0 {
        Seq::empty()
    } else if is_inferred_output(*entries.last().1) {
        inferred_io(entries.drop_last()).push(entries.last().1)
    } else {
        inferred_io(entries.drop_last())
    }
}

/// `Some` of a list that is not empty, `None` of an empty one.
pub open spec fn non_empty(s: Seq<Rc<Symbol>>) -> Option<Seq<Rc<Symbol>>> {
    if s.len() == 0 {
        None
    } else {
        Some(s)
    }
}

/// The view of an optional list of symbols.
pub open spec fn list_view(v: Option<Vec<Rc<Symbol>>>) -> Option<Seq<Rc<Symbol>>> {
    match v {
        Some(v) => Some(v@),
        None => None,
    }
}

/// What `name` resolves to when the walk stands at scope `i` of `scopes`
/// and goes outwards. `crossed` says whether the walk has already left the
/// body of a subroutine or of a gate: from then on only declarations whose
/// type crosses such a boundary are seen.
pub open spec fn resolve_from(scopes: Seq<Scope>, i: int, crossed: bool, name: Seq<char>) -> Option<
    (SymbolId, Rc<Symbol>),
>
    decreases i + 1,
{
    if i < 0 || i >= scopes.len() {
        None
    } else {
        let hit = scopes[i].lookup(name);
        if hit is Some && (!crossed || hit.unwrap().1.ty.crosses_boundaries()) {
            hit
        } else {
            resolve_from(scopes, i - 1, crossed || scopes[i].kind().is_boundary(), name)
        }
    }
}

/// Whether a walk that starts at the innermost scope has left the body of
/// a subroutine or of a gate by the time it reaches scope `i`.
pub open spec fn crossed_before(scopes: Seq<Scope>, i: int) -> bool {
    exists|j: int| i < j < scopes.len() && (#[trigger] scopes[j]).kind().is_boundary()
}

/// Whether scope `i` declares `name` in a way that the innermost scope
/// can see.
pub open spec fn visible_at(scopes: Seq<Scope>, i: int, name: Seq<char>) -> bool {
    &&& 0 <= i < scopes.len()
    &&& scopes[i].lookup(name) matches Some(e)
    &&& (!crossed_before(scopes, i) || e.1.ty.crosses_boundaries())
}

/// A stack of scopes with the symbols declared in them, and an index of
/// all symbols by identifier.
pub struct SymbolTable {
    scopes: Vec<Scope>,
    symbols: Vec<Rc<Symbol>>,
    current_id: SymbolId,
}

impl SymbolTable {
    /// The scopes, outermost first.
    pub closed spec fn scopes(self) -> Seq<Scope> {
        self.scopes@
    }

    /// Every symbol that the table has taken in, by identifier.
    pub closed spec fn symbols(self) -> Seq<Rc<Symbol>> {
        self.symbols@
    }

    /// The identifier that the next symbol gets.
    pub closed spec fn next_id(self) -> SymbolId {
        self.current_id
    }

    /// The innermost scope.
    pub open spec fn top(self) -> Scope {
        self.scopes().last()
    }

    /// The stack is rooted in the one global scope, every scope is
    /// well formed, and every declaration is in the index under its
    /// identifier.
    pub open spec fn wf(self) -> bool {
        &&& self.scopes().len() >= 1
        &&& self.scopes()[0].kind() is Global
        &&& forall|i: int|
            1 <= i < self.scopes().len() ==> !((#[trigger] self.scopes()[i]).kind() is Global)
        &&& forall|i: int| 0 <= i < self.scopes().len() ==> (#[trigger] self.scopes()[i]).wf()
        &&& self.symbols().len() == self.next_id().0
        &&& forall|i: int, j: int|
            0 <= i < self.scopes().len() && 0 <= j < self.scopes()[i].entries().len() ==> {
                let e = #[trigger] self.scopes()[i].entries()[j];
                e.0.0 < self.symbols().len() && self.symbols()[e.0.0 as int] == e.1
            }
    }

    /// This table holds what `before` holds.
    pub open spec fn same_as(self, before: SymbolTable) -> bool {
        &&& self.scopes() == before.scopes()
        &&& self.symbols() == before.symbols()
        &&& self.next_id() == before.next_id()
    }

    /// This table is `before` with `symbol` added to the index under `id`,
    /// the next identifier of `before`, and nothing else changed but the
    /// next identifier.
    pub open spec fn indexed_in(self, before: SymbolTable, id: SymbolId, symbol: Symbol) -> bool {
        &&& id == before.next_id()
        &&& self.next_id().0 == id.0 + 1
        &&& self.symbols().len() == before.symbols().len() + 1
        &&& self.symbols().drop_last() == before.symbols()
        &&& *self.symbols().last() == symbol
        &&& self.scopes().len() == before.scopes().len()
        &&& self.scopes().drop_last() == before.scopes().drop_last()
        &&& self.top().kind() == before.top().kind()
    }

    /// This table is `before` with `symbol` declared under `id` as the last
    /// declaration of the innermost scope, and added to the index.
    pub open spec fn declared_in(self, before: SymbolTable, id: SymbolId, symbol: Symbol) -> bool {
        &&& self.indexed_in(before, id, symbol)
        &&& self.top().entries().len() == before.top().entries().len() + 1
        &&& self.top().entries().drop_last() == before.top().entries()
        &&& self.top().entries().last().0 == id
        &&& *self.top().entries().last().1 == symbol
    }

    /// What `name` resolves to from the innermost scope.
    pub open spec fn resolve(self, name: Seq<char>) -> Option<(SymbolId, Rc<Symbol>)> {
        resolve_from(self.scopes(), self.scopes().len() - 1, false, name)
    }

    /// Whether some scope is the body of a subroutine.
    pub open spec fn in_subroutine(self) -> bool {
        exists|i: int| 0 <= i < self.scopes().len() && (#[trigger] self.scopes()[i]).kind() is Function
    }

    /// Whether some scope is the body of a subroutine or of a gate.
    pub open spec fn in_gate_or_subroutine(self) -> bool {
        exists|i: int|
            0 <= i < self.scopes().len() && (#[trigger] self.scopes()[i]).kind().is_boundary()
    }

    /// Whether scope `i` is a loop that no subroutine or gate body
    /// separates from the innermost scope.
    pub open spec fn loop_at(self, i: int) -> bool {
        &&& 0 <= i < self.scopes().len()
        &&& self.scopes()[i].kind() is Loop
        &&& !crossed_before(self.scopes(), i)
    }

    /// Whether scope `i` is the innermost body of a subroutine.
    pub open spec fn innermost_subroutine_at(self, i: int) -> bool {
        &&& 0 <= i < self.scopes().len()
        &&& self.scopes()[i].kind() is Function
        &&& forall|j: int| i < j < self.scopes().len() ==> !((#[trigger] self.scopes()[j]).kind() is Function)
    }

    /// Whether scope `i` is the innermost one that is global or the body of
    /// a subroutine or of a gate.
    pub open spec fn innermost_frame_at(self, i: int) -> bool {
        &&& 0 <= i < self.scopes().len()
        &&& (self.scopes()[i].kind().is_boundary() || self.scopes()[i].kind() is Global)
        &&& forall|j: int|
            i < j < self.scopes().len() ==> {
                let k = (#[trigger] self.scopes()[j]).kind();
                !k.is_boundary() && !(k is Global)
            }
    }

    /// A table with the global scope alone, in which the built-in gates and
    /// constants are declared.
    pub fn new() -> (r: SymbolTable)
        ensures
            r.wf(),
            r.scopes().len() == 1,
            r.next_id() == SymbolId(8),
            r.symbols().len() == 8,
            r.top().entries().len() == 8,
            forall|i: int| 0 <= i < 8 ==> is_builtin(i, #[trigger] r.top().entries()[i]),
    {
        let mut slf = SymbolTable {
            scopes: vec![Scope::new(ScopeKind::Global)],
            symbols: Vec::new(),
            current_id: SymbolId(0),
        };
        proof {
            lemma_builtin_names_distinct();
        }
        slf.insert_builtin(
            Symbol {
                name: "U".to_owned(),
                span: Span::empty(),
                ty: Type::Gate(3, 1),
                qsharp_ty: crate::types::Type::Callable(
                    crate::types::CallableKind::Operation,
                    3,
                    1,
                ),
                io_kind: IOKind::Default,
                const_expr: None,
            },
        );
        slf.insert_builtin(
            Symbol {
                name: "gphase".to_owned(),
                span: Span::empty(),
                ty: Type::Gate(1, 0),
                qsharp_ty: crate::types::Type::Callable(
                    crate::types::CallableKind::Operation,
                    1,
                    0,
                ),
                io_kind: IOKind::Default,
                const_expr: None,
            },
        );
        slf.insert_builtin(builtin_constant("pi", PI_BITS));
        slf.insert_builtin(builtin_constant("π", PI_BITS));
        slf.insert_builtin(builtin_constant("tau", TAU_BITS));
        slf.insert_builtin(builtin_constant("τ", TAU_BITS));
        slf.insert_builtin(builtin_constant("euler", EULER_BITS));
        slf.insert_builtin(builtin_constant("ℇ", EULER_BITS));
        slf
    }

    /// Declares the next built-in symbol in the global scope.
    fn insert_builtin(&mut self, symbol: Symbol)
        requires
            old(self).wf(),
            old(self).scopes().len() == 1,
            old(self).next_id().0 == old(self).top().entries().len(),
            old(self).next_id().0 < 8,
            forall|i: int|
                0 <= i < old(self).next_id().0 ==> is_builtin(i, #[trigger] old(self).top().entries()[i]),
            forall|i: int, j: int|
                0 <= i < 8 && 0 <= j < 8 && i != j ==> #[trigger] builtin_name(i) != #[trigger] builtin_name(j),
            is_builtin(old(self).next_id().0 as int, (old(self).next_id(), Rc::new(symbol))),
        ensures
            final(self).wf(),
            final(self).scopes().len() == 1,
            final(self).next_id().0 == old(self).next_id().0 + 1,
            final(self).next_id().0 == final(self).top().entries().len(),
            forall|i: int|
                0 <= i < final(self).next_id().0 ==> is_builtin(
                    i,
                    #[trigger] final(self).top().entries()[i],
                ),
    {
        let ghost n = self.next_id().0 as int;
        proof {
            if self.top().declares(symbol.name@) {
                let i = choose|i: int| self.top().declares_at(i, symbol.name@);
                assert(is_builtin(i, self.top().entries()[i]));
                assert(builtin_name(i) != builtin_name(n));
            }
        }
        let r = self.insert_symbol(symbol);
        assert(r is Ok);
        proof {
            assert forall|i: int| 0 <= i < self.next_id().0 implies is_builtin(
                i,
                #[trigger] self.top().entries()[i],
            ) by {
                if i < n {
                    assert(self.top().entries()[i] == old(self).top().entries()[i]);
                }
            }
        }
    }

    /// Opens a scope of the given kind inside the innermost one.
    pub fn push_scope(&mut self, kind: ScopeKind)
        requires
            old(self).wf(),
            !(kind is Global),
        ensures
            final(self).wf(),
            final(self).scopes().len() == old(self).scopes().len() + 1,
            final(self).scopes().drop_last() == old(self).scopes(),
            final(self).top().kind() == kind,
            final(self).top().entries().len() == 0,
            final(self).symbols() == old(self).symbols(),
            final(self).next_id() == old(self).next_id(),
    {
        let scope = Scope::new(kind);
        self.scopes.push(scope);
        proof {
            assert(self.scopes().drop_last() =~= old(self).scopes());
            assert forall|i: int, j: int|
                0 <= i < self.scopes().len() && 0 <= j < self.scopes()[i].entries().len() implies {
                let e = #[trigger] self.scopes()[i].entries()[j];
                e.0.0 < self.symbols().len() && self.symbols()[e.0.0 as int] == e.1
            } by {
                assert(self.scopes()[i] == old(self).scopes()[i]);
            }
        }
    }

    /// Closes the innermost scope.
    pub fn pop_scope(&mut self)
        requires
            old(self).wf(),
            old(self).scopes().len() > 1,
        ensures
            final(self).wf(),
            final(self).scopes() == old(self).scopes().drop_last(),
            final(self).symbols() == old(self).symbols(),
            final(self).next_id() == old(self).next_id(),
    {
        self.scopes.pop();
        proof {
            assert(self.scopes() =~= old(self).scopes().drop_last());
            assert forall|i: int, j: int|
                0 <= i < self.scopes().len() && 0 <= j < self.scopes()[i].entries().len() implies {
                let e = #[trigger] self.scopes()[i].entries()[j];
                e.0.0 < self.symbols().len() && self.symbols()[e.0.0 as int] == e.1
            } by {
                assert(self.scopes()[i] == old(self).scopes()[i]);
            }
        }
    }

    /// The number of symbols that the table has taken in.
    pub fn len(&self) -> (r: usize)
        ensures
            r == self.symbols().len(),
    {
        self.symbols.len()
    }

    /// Declares `symbol` in the innermost scope under the next identifier,
    /// unless that scope already declares its name.
    pub fn insert_symbol(&mut self, symbol: Symbol) -> (r: Result<SymbolId, SymbolError>)
        requires
            old(self).wf(),
            old(self).top().declares(symbol.name@) || old(self).next_id().0 < u32::MAX,
        ensures
            final(self).wf(),
            final(self).scopes().len() == old(self).scopes().len(),
            final(self).scopes().drop_last() == old(self).scopes().drop_last(),
            final(self).top().kind() == old(self).top().kind(),
            r is Err <==> old(self).top().declares(symbol.name@),
            r is Err ==> final(self).same_as(*old(self)),
            r matches Ok(id) ==> final(self).declared_in(*old(self), id, symbol),
    {
        let symbol = Rc::new(symbol);
        let id = self.current_id;
        let mut top = self.scopes.pop().unwrap();
        let ghost rest = self.scopes@;
        let r = top.insert_symbol(id, rc_share(&symbol));
        self.scopes.push(top);
        proof {
            assert(self.scopes().drop_last() =~= rest);
            assert(old(self).scopes().drop_last() =~= rest);
        }
        match r {
            Ok(()) => {
                self.current_id = self.current_id.successor();
                self.symbols.push(symbol);
                proof {
                    assert(self.symbols().drop_last() =~= old(self).symbols());
                    assert(self.top().entries().drop_last() =~= old(self).top().entries());
                    assert forall|i: int, j: int|
                        0 <= i < self.scopes().len() && 0 <= j < self.scopes()[i].entries().len() implies {
                        let e = #[trigger] self.scopes()[i].entries()[j];
                        e.0.0 < self.symbols().len() && self.symbols()[e.0.0 as int] == e.1
                    } by {
                        if i < self.scopes().len() - 1 {
                            assert(self.scopes()[i] == rest[i]);
                            assert(self.scopes()[i] == old(self).scopes()[i]);
                            let e = old(self).scopes()[i].entries()[j];
                            assert(e.0.0 < old(self).symbols().len());
                        } else if j < old(self).top().entries().len() {
                            let e = old(self).scopes()[i].entries()[j];
                            assert(e.0.0 < old(self).symbols().len());
                        }
                    }
                    assert forall|i: int| 0 <= i < self.scopes().len() implies (#[trigger] self.scopes()[i]).wf() by {
                        if i < self.scopes().len() - 1 {
                            assert(self.scopes()[i] == old(self).scopes()[i]);
                        }
                    }
                    assert forall|i: int| 1 <= i < self.scopes().len() implies !((#[trigger] self.scopes()[i]).kind() is Global) by {
                        assert(self.scopes()[i].kind() == old(self).scopes()[i].kind());
                    }
                }
                Ok(id)
            },
            Err(e) => {
                proof {
                    assert(self.scopes() =~= old(self).scopes());
                    assert forall|i: int, j: int|
                        0 <= i < self.scopes().len() && 0 <= j < self.scopes()[i].entries().len() implies {
                        let e = #[trigger] self.scopes()[i].entries()[j];
                        e.0.0 < self.symbols().len() && self.symbols()[e.0.0 as int] == e.1
                    } by {
                        let e = old(self).scopes()[i].entries()[j];
                        assert(e.0.0 < old(self).symbols().len());
                        if i < self.scopes().len() - 1 {
                            assert(self.scopes()[i] == rest[i]);
                        }
                    }
                    assert forall|i: int| 0 <= i < self.scopes().len() implies (#[trigger] self.scopes()[i]).wf() by {
                        if i < self.scopes().len() - 1 {
                            assert(self.scopes()[i] == old(self).scopes()[i]);
                        }
                    }
                    assert forall|i: int| 1 <= i < self.scopes().len() implies !((#[trigger] self.scopes()[i]).kind() is Global) by {
                        assert(self.scopes()[i].kind() == old(self).scopes()[i].kind());
                    }
                }
                Err(SymbolError::AlreadyExists)
            },
        }
    }
}

/// The declaration of a built-in constant: a const float with the literal
/// of its value attached.
fn builtin_constant(name: &str, bits: u64) -> (r: Symbol)
    ensures
        r.name@ == name@,
        r.span == (Span { lo: 0, hi: 0 }),
        r.io_kind == IOKind::Default,
        r.ty == Type::Float(None, true),
        r.qsharp_ty == crate::types::Type::Double(true),
        r.const_expr matches Some(x) && x.span == (Span { lo: 0, hi: 0 }) && *x.kind
            == ExprKind::Lit(LiteralKind::Float(FloatBits(bits))) && x.ty == Type::Float(
            None,
            true,
        ),
{
    let expr = Expr {
        span: Span::empty(),
        kind: Box::new(ExprKind::Lit(LiteralKind::Float(FloatBits(bits)))),
        ty: Type::Float(None, true),
    };
    Symbol {
        name: name.to_owned(),
        span: Span::empty(),
        ty: Type::Float(None, true),
        qsharp_ty: crate::types::Type::Double(true),
        io_kind: IOKind::Default,
        const_expr: Some(Rc::new(expr)),
    }
}

impl SymbolTable {
    /// Adds a symbol of the error type to the index, in no scope.
    fn insert_err_symbol(&mut self, name: &str, span: Span) -> (r: (SymbolId, Rc<Symbol>))
        requires
            old(self).wf(),
            old(self).next_id().0 < u32::MAX,
        ensures
            final(self).wf(),
            is_err_symbol(*r.1, name@, span),
            final(self).indexed_in(*old(self), r.0, *r.1),
            final(self).top().entries() == old(self).top().entries(),
    {
        let symbol = Rc::new(
            Symbol {
                name: name.to_owned(),
                span,
                ty: Type::Error,
                qsharp_ty: crate::types::Type::Error,
                io_kind: IOKind::Default,
                const_expr: None,
            },
        );
        let id = self.current_id;
        self.current_id = self.current_id.successor();
        self.symbols.push(rc_share(&symbol));
        proof {
            assert(self.symbols().drop_last() =~= old(self).symbols());
            assert forall|i: int, j: int|
                0 <= i < self.scopes().len() && 0 <= j < self.scopes()[i].entries().len() implies {
                let e = #[trigger] self.scopes()[i].entries()[j];
                e.0.0 < self.symbols().len() && self.symbols()[e.0.0 as int] == e.1
            } by {
                let e = old(self).scopes()[i].entries()[j];
                assert(e.0.0 < old(self).symbols().len());
            }
        }
        (id, symbol)
    }

    /// What `name` resolves to; if it resolves to nothing, a new symbol of
    /// the error type with that name and span, which is added to the index
    /// and to no scope.
    pub fn try_get_existing_or_insert_err_symbol(&mut self, name: &str, span: Span) -> (r: Result<
        (SymbolId, Rc<Symbol>),
        (SymbolId, Rc<Symbol>),
    >)
        requires
            old(self).wf(),
            old(self).resolve(name@) is Some || old(self).next_id().0 < u32::MAX,
        ensures
            final(self).wf(),
            old(self).resolve(name@) matches Some(e) ==> (r matches Ok(found) && found == e
                && final(self).same_as(*old(self))),
            old(self).resolve(name@) is None ==> (r matches Err(made) && is_err_symbol(
                *made.1,
                name@,
                span,
            ) && final(self).indexed_in(*old(self), made.0, *made.1) && final(self).top().entries()
                == old(self).top().entries()),
    {
        if let Some((id, symbol)) = self.get_symbol_by_name(name) {
            return Ok((id, symbol));
        }
        Err(self.insert_err_symbol(name, span))
    }

    /// Declares `symbol` in the innermost scope; if that scope already
    /// declares its name, hands back the identifier of that declaration.
    pub fn try_insert_or_get_existing(&mut self, symbol: Symbol) -> (r: Result<SymbolId, SymbolId>)
        requires
            old(self).wf(),
            old(self).top().declares(symbol.name@) || old(self).next_id().0 < u32::MAX,
        ensures
            final(self).wf(),
            r is Err <==> old(self).top().declares(symbol.name@),
            r matches Err(id) ==> final(self).same_as(*old(self)) && (old(self).top().lookup(
                symbol.name@,
            ) matches Some(e) && e.0 == id),
            r matches Ok(id) ==> final(self).declared_in(*old(self), id, symbol),
    {
        let name = symbol.name.clone();
        match self.insert_symbol(symbol) {
            Ok(symbol_id) => Ok(symbol_id),
            Err(_) => {
                match self.get_symbol_by_name(name.as_str()) {
                    Some((id, _)) => Err(id),
                    None => Err(SymbolId(0)),
                }
            },
        }
    }
}

/// Whether `s` is the symbol that stands for an unresolved name: it has
/// the error type in both languages and nothing else set.
pub open spec fn is_err_symbol(s: Symbol, name: Seq<char>, span: Span) -> bool {
    &&& s.name@ == name
    &&& s.span == span
    &&& s.ty == Type::Error
    &&& s.qsharp_ty == crate::types::Type::Error
    &&& s.io_kind == IOKind::Default
    &&& s.const_expr is None
}

impl SymbolTable {
    /// What `name` resolves to from the innermost scope. The walk goes
    /// outwards. Up to and including the innermost body of a subroutine or
    /// of a gate every declaration is seen; beyond it only those whose type
    /// is const or is that of a gate, of a subroutine or `void`.
    pub fn get_symbol_by_name(&self, name: &str) -> (r: Option<(SymbolId, Rc<Symbol>)>)
        requires
            self.wf(),
        ensures
            r == self.resolve(name@),
    {
        let mut i = self.scopes.len();
        let mut crossed = false;
        while i > 0
            invariant
                i <= self.scopes@.len(),
                self.wf(),
                self.resolve(name@) == resolve_from(self.scopes(), i - 1, crossed, name@),
            decreases i,
        {
            i -= 1;
            let scope = &self.scopes[i];
            assert(self.scopes()[i as int].wf());
            if let Some((id, symbol)) = scope.get_symbol_by_name(name) {
                if !crossed || symbol.ty.is_const() || symbol.ty.is_callable_or_void() {
                    return Some((id, symbol));
                }
            }
            match scope.kind {
                ScopeKind::Function(_) | ScopeKind::Gate => {
                    crossed = true;
                },
                _ => {},
            }
        }
        None
    }

    /// The symbol with the identifier `id`.
    pub fn index(&self, id: SymbolId) -> (r: &Rc<Symbol>)
        requires
            id.0 < self.symbols().len(),
        ensures
            *r == self.symbols()[id.0 as int],
    {
        &self.symbols[id.0 as usize]
    }

    /// Whether the symbol `symbol_id` is declared outside the innermost
    /// body of a subroutine or of a gate, or outside the global scope if
    /// there is no such body: whether none of the scopes from there
    /// inwards holds it.
    pub fn is_symbol_outside_most_inner_gate_or_function_scope(&self, symbol_id: SymbolId) -> (r:
        bool)
        requires
            self.wf(),
        ensures
            r <==> exists|f: int|
                self.innermost_frame_at(f) && forall|j: int|
                    f <= j < self.scopes().len() ==> !(#[trigger] self.scopes()[j]).holds_id(
                        symbol_id,
                    ),
    {
        let mut i = self.scopes.len();
        while i > 0
            invariant
                i <= self.scopes@.len(),
                self.wf(),
                forall|j: int|
                    i <= j < self.scopes().len() ==> {
                        let s = #[trigger] self.scopes()[j];
                        !s.holds_id(symbol_id) && !s.kind().is_boundary() && !(s.kind() is Global)
                    },
            decreases i,
        {
            i -= 1;
            let scope = &self.scopes[i];
            if scope.contains_id(symbol_id) {
                proof {
                    assert forall|f: int| self.innermost_frame_at(f) implies !(forall|j: int|
                        f <= j < self.scopes().len() ==> !(#[trigger] self.scopes()[j]).holds_id(
                            symbol_id,
                        )) by {
                        if f > i {
                            let s = self.scopes()[f];
                            assert(!s.kind().is_boundary() && !(s.kind() is Global));
                        }
                        assert(self.scopes()[i as int].holds_id(symbol_id));
                    }
                }
                return false;
            }
            match scope.kind {
                ScopeKind::Gate | ScopeKind::Function(_) | ScopeKind::Global => {
                    proof {
                        assert(self.innermost_frame_at(i as int));
                    }
                    return true;
                },
                _ => {},
            }
        }
        proof {
            let s = self.scopes()[0];
            assert(!(s.kind() is Global));
        }
        true
    }

    /// Whether the innermost scope is the global scope.
    pub fn is_current_scope_global(&self) -> (r: bool)
        requires
            self.wf(),
        ensures
            r == (self.top().kind() is Global),
    {
        match self.scopes[self.scopes.len() - 1].kind {
            ScopeKind::Global => true,
            _ => false,
        }
    }

    /// Whether some scope is the body of a subroutine.
    pub fn is_scope_rooted_in_subroutine(&self) -> (r: bool)
        ensures
            r == self.in_subroutine(),
    {
        let mut i = self.scopes.len();
        while i > 0
            invariant
                i <= self.scopes@.len(),
                forall|j: int| i <= j < self.scopes().len() ==> !((#[trigger] self.scopes()[j]).kind() is Function),
            decreases i,
        {
            i -= 1;
            match self.scopes[i].kind {
                ScopeKind::Function(_) => {
                    assert(self.scopes()[i as int].kind() is Function);
                    return true;
                },
                _ => {},
            }
        }
        false
    }

    /// The return type of the innermost subroutine whose body is open, if
    /// there is one.
    pub fn get_subroutine_return_ty(&self) -> (r: Option<Rc<Type>>)
        ensures
            r is None <==> !self.in_subroutine(),
            r matches Some(ty) ==> exists|i: int|
                self.innermost_subroutine_at(i) && (#[trigger] self.scopes()[i]).kind()
                    == ScopeKind::Function(ty),
    {
        let mut i = self.scopes.len();
        while i > 0
            invariant
                i <= self.scopes@.len(),
                forall|j: int| i <= j < self.scopes().len() ==> !((#[trigger] self.scopes()[j]).kind() is Function),
            decreases i,
        {
            i -= 1;
            match &self.scopes[i].kind {
                ScopeKind::Function(return_ty) => {
                    let ty = rc_share(return_ty);
                    proof {
                        assert(self.scopes()[i as int].kind() is Function);
                        assert(self.innermost_subroutine_at(i as int));
                        assert(self.scopes()[i as int].kind() == ScopeKind::Function(ty));
                    }
                    return Some(ty);
                },
                _ => {},
            }
        }
        None
    }

    /// Whether some scope is the body of a subroutine or of a gate.
    pub fn is_scope_rooted_in_gate_or_subroutine(&self) -> (r: bool)
        ensures
            r == self.in_gate_or_subroutine(),
    {
        let mut i = self.scopes.len();
        while i > 0
            invariant
                i <= self.scopes@.len(),
                forall|j: int| i <= j < self.scopes().len() ==> !(#[trigger] self.scopes()[j]).kind().is_boundary(),
            decreases i,
        {
            i -= 1;
            match self.scopes[i].kind {
                ScopeKind::Gate | ScopeKind::Function(_) => {
                    assert(self.scopes()[i as int].kind().is_boundary());
                    return true;
                },
                _ => {},
            }
        }
        false
    }

    /// Whether the innermost scope lies in a loop of the same subroutine
    /// or gate body: whether, going outwards, a loop comes before any such
    /// body.
    pub fn is_scope_rooted_in_loop_scope(&self) -> (r: bool)
        ensures
            r == exists|i: int| self.loop_at(i),
    {
        let mut i = self.scopes.len();
        while i > 0
            invariant
                i <= self.scopes@.len(),
                forall|j: int|
                    i <= j < self.scopes().len() ==> {
                        let k = (#[trigger] self.scopes()[j]).kind();
                        !k.is_boundary() && !(k is Loop)
                    },
            decreases i,
        {
            i -= 1;
            match self.scopes[i].kind {
                ScopeKind::Loop => {
                    proof {
                        assert(!crossed_before(self.scopes(), i as int));
                        assert(self.loop_at(i as int));
                    }
                    return true;
                },
                ScopeKind::Function(_) | ScopeKind::Gate => {
                    proof {
                        assert forall|l: int| !self.loop_at(l) by {
                            if self.loop_at(l) {
                                if l < i {
                                    assert(self.scopes()[i as int].kind().is_boundary());
                                    assert(crossed_before(self.scopes(), l));
                                } else {
                                    let k = self.scopes()[l].kind();
                                    assert(!(k is Loop) || l == i);
                                }
                            }
                        }
                    }
                    return false;
                },
                _ => {},
            }
        }
        proof {
            assert forall|l: int| !self.loop_at(l) by {
                if self.loop_at(l) {
                    let k = self.scopes()[l].kind();
                    assert(!(k is Loop));
                }
            }
        }
        false
    }

    /// Whether no scope is the body of a subroutine or of a gate.
    pub fn is_scope_rooted_in_global(&self) -> (r: bool)
        ensures
            r == !self.in_gate_or_subroutine(),
    {
        !self.is_scope_rooted_in_gate_or_subroutine()
    }

    /// The global symbols that are declared as inputs, in the order of
    /// their declaration; `None` if there is none.
    pub fn get_input(&self) -> (r: Option<Vec<Rc<Symbol>>>)
        requires
            self.wf(),
        ensures
            list_view(r) == non_empty(declared_io(self.scopes()[0].entries(), IOKind::Input)),
    {
        let io_input = self.get_io_input();
        if io_input.len() == 0 {
            None
        } else {
            Some(io_input)
        }
    }

    /// The outputs of the program: the global symbols that are declared as
    /// outputs, or, if there is none, those that are inferred to be
    /// outputs; in the order of their declaration. `None` if there is
    /// none of either.
    pub fn get_output(&self) -> (r: Option<Vec<Rc<Symbol>>>)
        requires
            self.wf(),
        ensures
            list_view(r) == (if declared_io(self.scopes()[0].entries(), IOKind::Output).len() > 0 {
                Some(declared_io(self.scopes()[0].entries(), IOKind::Output))
            } else {
                non_empty(inferred_io(self.scopes()[0].entries()))
            }),
    {
        let io_output = self.get_io_output();
        if io_output.is_some() {
            io_output
        } else {
            self.get_inferred_output()
        }
    }

    /// The global symbols that are inferred to be outputs.
    fn get_inferred_output(&self) -> (r: Option<Vec<Rc<Symbol>>>)
        requires
            self.wf(),
        ensures
            list_view(r) == non_empty(inferred_io(self.scopes()[0].entries())),
    {
        let mut symbols: Vec<Rc<Symbol>> = Vec::new();
        let global = &self.scopes[0];
        let mut i: usize = 0;
        while i < global.entries.len()
            invariant
                i <= global.entries@.len(),
                symbols@ == inferred_io(global.entries().take(i as int)),
            decreases global.entries@.len() - i,
        {
            let symbol = &global.entries[i].1;
            proof {
                let next = global.entries().take(i + 1);
                assert(next.drop_last() =~= global.entries().take(i as int));
                assert(next.last() == global.entries()[i as int]);
            }
            if !is_builtin_constant(symbol.name.as_str()) && symbol.io_kind == IOKind::Default
                && symbol.ty.is_inferred_output_type() {
                symbols.push(rc_share(symbol));
            }
            i += 1;
        }
        proof {
            assert(global.entries().take(i as int) =~= global.entries());
        }
        if symbols.len() == 0 {
            None
        } else {
            Some(symbols)
        }
    }

    /// The global symbols whose I/O kind is `kind`.
    fn collect_declared(&self, kind: IOKind) -> (r: Vec<Rc<Symbol>>)
        requires
            self.wf(),
        ensures
            r@ == declared_io(self.scopes()[0].entries(), kind),
    {
        let mut symbols: Vec<Rc<Symbol>> = Vec::new();
        let global = &self.scopes[0];
        let mut i: usize = 0;
        while i < global.entries.len()
            invariant
                i <= global.entries@.len(),
                symbols@ == declared_io(global.entries().take(i as int), kind),
            decreases global.entries@.len() - i,
        {
            let symbol = &global.entries[i].1;
            proof {
                let next = global.entries().take(i + 1);
                assert(next.drop_last() =~= global.entries().take(i as int));
                assert(next.last() == global.entries()[i as int]);
            }
            if symbol.io_kind == kind {
                symbols.push(rc_share(symbol));
            }
            i += 1;
        }
        proof {
            assert(global.entries().take(i as int) =~= global.entries());
        }
        symbols
    }

    /// The global symbols that are declared as outputs.
    fn get_io_output(&self) -> (r: Option<Vec<Rc<Symbol>>>)
        requires
            self.wf(),
        ensures
            list_view(r) == non_empty(declared_io(self.scopes()[0].entries(), IOKind::Output)),
    {
        let symbols = self.collect_declared(IOKind::Output);
        if symbols.len() == 0 {
            None
        } else {
            Some(symbols)
        }
    }

    /// The global symbols that are declared as inputs.
    fn get_io_input(&self) -> (r: Vec<Rc<Symbol>>)
        requires
            self.wf(),
        ensures
            r@ == declared_io(self.scopes()[0].entries(), IOKind::Input),
    {
        self.collect_declared(IOKind::Input)
    }
}

/// Whether `name` is a gate of the standard gate library of the language.
pub open spec fn is_qasm_std_gate_name(name: Seq<char>) -> bool {
    name == "x"@
        || name == "p"@
        || name == "y"@
        || name == "z"@
        || name == "h"@
        || name == "s"@
        || name == "t"@
        || name == "sx"@
        || name == "rx"@
        || name == "rxx"@
        || name == "ry"@
        || name == "ryy"@
        || name == "rz"@
        || name == "rzz"@
        || name == "cx"@
        || name == "cy"@
        || name == "cz"@
        || name == "cp"@
        || name == "swap"@
        || name == "ccx"@
        || name == "cu"@
        || name == "CX"@
        || name == "phase"@
        || name == "id"@
        || name == "u1"@
        || name == "u2"@
        || name == "u3"@
}

/// Whether `name` is one of the further standard gates of Qiskit.
pub open spec fn is_qiskit_std_gate_name(name: Seq<char>) -> bool {
    name == "rrx"@
        || name == "ryy"@
        || name == "rzz"@
        || name == "dcx"@
        || name == "ecr"@
        || name == "r"@
        || name == "rzx"@
        || name == "cs"@
        || name == "csdg"@
        || name == "sxdg"@
        || name == "csx"@
        || name == "cu1"@
        || name == "cu3"@
        || name == "rccx"@
        || name == "c3sqrtx"@
        || name == "c3x"@
        || name == "rc3x"@
        || name == "xx_minus_yy"@
        || name == "xx_plus_yy"@
        || name == "ccz"@
}

/// The gates of the standard gate library of the language.
fn qasm_std_gates() -> (r: FxHashSet<&'static str>)
    ensures
        forall|name: Seq<char>| name_set(r).contains(name) == is_qasm_std_gate_name(name),
{
    let mut set = name_set_new();
    name_set_insert(&mut set, "x");
    name_set_insert(&mut set, "p");
    name_set_insert(&mut set, "y");
    name_set_insert(&mut set, "z");
    name_set_insert(&mut set, "h");
    name_set_insert(&mut set, "s");
    name_set_insert(&mut set, "t");
    name_set_insert(&mut set, "sx");
    name_set_insert(&mut set, "rx");
    name_set_insert(&mut set, "rxx");
    name_set_insert(&mut set, "ry");
    name_set_insert(&mut set, "ryy");
    name_set_insert(&mut set, "rz");
    name_set_insert(&mut set, "rzz");
    name_set_insert(&mut set, "cx");
    name_set_insert(&mut set, "cy");
    name_set_insert(&mut set, "cz");
    name_set_insert(&mut set, "cp");
    name_set_insert(&mut set, "swap");
    name_set_insert(&mut set, "ccx");
    name_set_insert(&mut set, "cu");
    name_set_insert(&mut set, "CX");
    name_set_insert(&mut set, "phase");
    name_set_insert(&mut set, "id");
    name_set_insert(&mut set, "u1");
    name_set_insert(&mut set, "u2");
    name_set_insert(&mut set, "u3");
    set
}

/// Whether `name` is a gate of the standard gate library of the language.
fn is_qasm_std_gate(name: &str) -> (r: bool)
    ensures
        r == is_qasm_std_gate_name(name@),
{
    let set = qasm_std_gates();
    name_set_contains(&set, name)
}

/// The further standard gates of Qiskit.
fn qiskit_std_gates() -> (r: FxHashSet<&'static str>)
    ensures
        forall|name: Seq<char>| name_set(r).contains(name) == is_qiskit_std_gate_name(name),
{
    let mut set = name_set_new();
    name_set_insert(&mut set, "rrx");
    name_set_insert(&mut set, "ryy");
    name_set_insert(&mut set, "rzz");
    name_set_insert(&mut set, "dcx");
    name_set_insert(&mut set, "ecr");
    name_set_insert(&mut set, "r");
    name_set_insert(&mut set, "rzx");
    name_set_insert(&mut set, "cs");
    name_set_insert(&mut set, "csdg");
    name_set_insert(&mut set, "sxdg");
    name_set_insert(&mut set, "csx");
    name_set_insert(&mut set, "cu1");
    name_set_insert(&mut set, "cu3");
    name_set_insert(&mut set, "rccx");
    name_set_insert(&mut set, "c3sqrtx");
    name_set_insert(&mut set, "c3x");
    name_set_insert(&mut set, "rc3x");
    name_set_insert(&mut set, "xx_minus_yy");
    name_set_insert(&mut set, "xx_plus_yy");
    name_set_insert(&mut set, "ccz");
    set
}

/// Whether `name` is one of the further standard gates of Qiskit.
fn is_qiskit_std_gate(name: &str) -> (r: bool)
    ensures
        r == is_qiskit_std_gate_name(name@),
{
    let set = qiskit_std_gates();
    name_set_contains(&set, name)
}

/// Whether `name` is a standard gate, of the language or of Qiskit.
pub fn is_std_gate(name: &str) -> (r: bool)
    ensures
        r == (is_qasm_std_gate_name(name@) || is_qiskit_std_gate_name(name@)),
{
    is_qasm_std_gate(name) || is_qiskit_std_gate(name)
}

impl From<u32> for SymbolId {
    fn from(val: u32) -> (r: SymbolId) {
        SymbolId(val)
    }
}

impl vstd::std_specs::convert::FromSpecImpl<u32> for SymbolId {
    open spec fn obeys_from_spec() -> bool {
        true
    }

    open spec fn from_spec(val: u32) -> SymbolId {
        SymbolId(val)
    }
}

impl From<SymbolId> for u32 {
    fn from(id: SymbolId) -> (r: u32) {
        id.0
    }
}

impl vstd::std_specs::convert::FromSpecImpl<SymbolId> for u32 {
    open spec fn obeys_from_spec() -> bool {
        true
    }

    open spec fn from_spec(id: SymbolId) -> u32 {
        id.0
    }
}

impl From<SymbolId> for usize {
    fn from(id: SymbolId) -> (r: usize) {
        id.0 as usize
    }
}

impl vstd::std_specs::convert::FromSpecImpl<SymbolId> for usize {
    open spec fn obeys_from_spec() -> bool {
        true
    }

    open spec fn from_spec(id: SymbolId) -> usize {
        id.0 as usize
    }
}

impl Default for SymbolTable {
    /// A table with the global scope alone, in which the built-in gates
    /// and constants are declared.
    fn default() -> (r: SymbolTable)
        ensures
            r.wf(),
            r.scopes().len() == 1,
            r.next_id() == SymbolId(8),
            r.symbols().len() == 8,
            r.top().entries().len() == 8,
            forall|i: int| 0 <= i < 8 ==> is_builtin(i, #[trigger] r.top().entries()[i]),
    {
        SymbolTable::new()
    }
}

} // verus!
