//! What the walk through the scopes amounts to: a name resolves to its
//! innermost visible declaration.

use crate::semantic::symbols::crossed_before;
use crate::semantic::symbols::resolve_from;
use crate::semantic::symbols::visible_at;
use crate::semantic::symbols::is_builtin;
use crate::semantic::symbols::Scope;
use crate::semantic::symbols::Symbol;
use crate::semantic::symbols::SymbolId;
use crate::semantic::symbols::SymbolTable;
use std::rc::Rc;
use vstd::prelude::*;

verus! {

/// A walk from scope `i` outwards, which has crossed what lies inside of
/// `i`, ends at the innermost visible declaration of `name` among the
/// scopes `0..=i`, or finds none where none is visible.
pub proof fn lemma_resolve_from(scopes: Seq<Scope>, i: int, name: Seq<char>)
    requires
        -1 <= i < scopes.len(),
    ensures
        match resolve_from(scopes, i, crossed_before(scopes, i), name) {
            Some(e) => exists|k: int|
                0 <= k <= i && #[trigger] visible_at(scopes, k, name) && scopes[k].lookup(name)
                    == Some(e) && forall|j: int| k < j <= i ==> !visible_at(scopes, j, name),
            None => forall|j: int| 0 <= j <= i ==> !visible_at(scopes, j, name),
        },
    decreases i + 1,
{
    if i >= 0 {
        let hit = scopes[i].lookup(name);
        let crossed = crossed_before(scopes, i);
        if hit is Some && (!crossed || hit.unwrap().1.ty.crosses_boundaries()) {
            assert(visible_at(scopes, i, name));
        } else {
            let next = crossed || scopes[i].kind().is_boundary();
            assert(next == crossed_before(scopes, i - 1)) by {
                if crossed_before(scopes, i - 1) {
                    let j = choose|j: int|
                        i - 1 < j < scopes.len() && (#[trigger] scopes[j]).kind().is_boundary();
                    if j != i {
                        assert(crossed_before(scopes, i));
                    }
                }
                if crossed {
                    let j = choose|j: int|
                        i < j < scopes.len() && (#[trigger] scopes[j]).kind().is_boundary();
                    assert(i - 1 < j < scopes.len() && scopes[j].kind().is_boundary());
                }
                if scopes[i].kind().is_boundary() {
                    assert(i - 1 < i < scopes.len() && scopes[i].kind().is_boundary());
                }
            }
            lemma_resolve_from(scopes, i - 1, name);
            assert(!visible_at(scopes, i, name));
            match resolve_from(scopes, i - 1, next, name) {
                Some(e) => {
                    let k = choose|k: int|
                        0 <= k <= i - 1 && #[trigger] visible_at(scopes, k, name)
                            && scopes[k].lookup(name) == Some(e) && forall|j: int|
                            k < j <= i - 1 ==> !visible_at(scopes, j, name);
                    assert(0 <= k <= i && visible_at(scopes, k, name) && scopes[k].lookup(name)
                        == Some(e) && forall|j: int| k < j <= i ==> !visible_at(scopes, j, name));
                },
                None => {},
            }
        }
    }
}

/// A name resolves to its innermost visible declaration: to the one in
/// the innermost scope that declares the name and is either not separated
/// from the innermost scope by the body of a subroutine or of a gate, or
/// declares it with a type that is const or that of a gate, of a
/// subroutine or `void`. Where no declaration is visible, the name
/// resolves to nothing.
pub proof fn lemma_resolves_to_innermost_visible(table: SymbolTable, name: Seq<char>)
    requires
        table.wf(),
    ensures
        match table.resolve(name) {
            Some(e) => exists|k: int|
                #[trigger] visible_at(table.scopes(), k, name) && table.scopes()[k].lookup(name)
                    == Some(e) && forall|j: int|
                    k < j < table.scopes().len() ==> !visible_at(table.scopes(), j, name),
            None => forall|j: int| !visible_at(table.scopes(), j, name),
        },
{
    let scopes = table.scopes();
    let top = scopes.len() - 1;
    assert(!crossed_before(scopes, top));
    lemma_resolve_from(scopes, top, name);
    match table.resolve(name) {
        Some(e) => {
            let k = choose|k: int|
                0 <= k <= top && #[trigger] visible_at(scopes, k, name) && scopes[k].lookup(name)
                    == Some(e) && forall|j: int| k < j <= top ==> !visible_at(scopes, j, name);
            assert(visible_at(scopes, k, name) && scopes[k].lookup(name) == Some(e) && forall|
                j: int,
            |
                k < j < scopes.len() ==> !visible_at(scopes, j, name));
        },
        None => {},
    }
}

/// A declaration is seen from every scope nested in its own that no body
/// of a subroutine or of a gate separates from it, unless a scope in
/// between declares the name again. So a variable of a loop body is
/// visible in a block nested in that loop.
pub proof fn lemma_visible_in_nested_blocks(
    table: SymbolTable,
    i: int,
    name: Seq<char>,
    e: (SymbolId, Rc<Symbol>),
)
    requires
        table.wf(),
        0 <= i < table.scopes().len(),
        table.scopes()[i].lookup(name) == Some(e),
        !crossed_before(table.scopes(), i),
        forall|j: int| i < j < table.scopes().len() ==> !(#[trigger] table.scopes()[j]).declares(name),
    ensures
        table.resolve(name) == Some(e),
{
    lemma_resolves_to_innermost_visible(table, name);
    let scopes = table.scopes();
    assert(visible_at(scopes, i, name));
    let found = table.resolve(name).unwrap();
    let k = choose|k: int|
        #[trigger] visible_at(scopes, k, name) && scopes[k].lookup(name) == Some(found)
            && forall|j: int| k < j < scopes.len() ==> !visible_at(scopes, j, name);
    if k > i {
        assert(!scopes[k].declares(name));
    }
}

/// A declaration whose type is neither const nor that of a gate, of a
/// subroutine or `void` is not seen from inside the body of a subroutine
/// or of a gate that is nested in its scope. So a variable of a loop body
/// is not visible in a subroutine that is declared inside that loop.
pub proof fn lemma_hidden_across_boundaries(
    table: SymbolTable,
    i: int,
    name: Seq<char>,
    e: (SymbolId, Rc<Symbol>),
)
    requires
        table.wf(),
        0 <= i < table.scopes().len(),
        table.scopes()[i].lookup(name) == Some(e),
        !e.1.ty.crosses_boundaries(),
        crossed_before(table.scopes(), i),
        forall|j: int| i < j < table.scopes().len() ==> !(#[trigger] table.scopes()[j]).declares(name),
    ensures
        table.resolve(name) != Some(e),
        table.resolve(name) matches Some(found) ==> found.1.ty.crosses_boundaries(),
{
    lemma_resolves_to_innermost_visible(table, name);
    let scopes = table.scopes();
    if table.resolve(name) is Some {
        let found = table.resolve(name).unwrap();
        let k = choose|k: int|
            #[trigger] visible_at(scopes, k, name) && scopes[k].lookup(name) == Some(found)
                && forall|j: int| k < j < scopes.len() ==> !visible_at(scopes, j, name);
        if k > i {
            assert(!scopes[k].declares(name));
        } else if k < i {
            let b = choose|b: int| i < b < scopes.len() && (#[trigger] scopes[b]).kind().is_boundary();
            assert(k < b < scopes.len() && scopes[b].kind().is_boundary());
            assert(crossed_before(scopes, k));
        }
    }
}

/// A declaration whose type is const, or that of a gate, of a subroutine
/// or `void`, is seen from every scope nested in its own, unless a scope
/// in between declares the name again. So a const global is visible from
/// inside every subroutine and every gate.
pub proof fn lemma_const_visible_everywhere(
    table: SymbolTable,
    i: int,
    name: Seq<char>,
    e: (SymbolId, Rc<Symbol>),
)
    requires
        table.wf(),
        0 <= i < table.scopes().len(),
        table.scopes()[i].lookup(name) == Some(e),
        e.1.ty.crosses_boundaries(),
        forall|j: int| i < j < table.scopes().len() ==> !(#[trigger] table.scopes()[j]).declares(name),
    ensures
        table.resolve(name) == Some(e),
{
    lemma_resolves_to_innermost_visible(table, name);
    let scopes = table.scopes();
    assert(visible_at(scopes, i, name));
    let found = table.resolve(name).unwrap();
    let k = choose|k: int|
        #[trigger] visible_at(scopes, k, name) && scopes[k].lookup(name) == Some(found)
            && forall|j: int| k < j < scopes.len() ==> !visible_at(scopes, j, name);
    if k > i {
        assert(!scopes[k].declares(name));
    }
}

/// The built-in symbols have the identifiers 0 to 7, each its own, and
/// the six constants among them are const.
pub proof fn lemma_builtins_distinct_and_const(entries: Seq<(SymbolId, Rc<Symbol>)>)
    requires
        entries.len() == 8,
        forall|i: int| 0 <= i < 8 ==> is_builtin(i, #[trigger] entries[i]),
    ensures
        forall|i: int, j: int| 0 <= i < j < 8 ==> (#[trigger] entries[i]).0 != (#[trigger] entries[j]).0,
        forall|i: int| 2 <= i < 8 ==> (#[trigger] entries[i]).1.spec_is_const(),
        !entries[0].1.spec_is_const(),
        !entries[1].1.spec_is_const(),
        forall|i: int| 0 <= i < 8 ==> (#[trigger] entries[i]).1.wf(),
{
    assert forall|i: int, j: int| 0 <= i < j < 8 implies (#[trigger] entries[i]).0 != (
    #[trigger] entries[j]).0 by {
        assert(is_builtin(i, entries[i]));
        assert(is_builtin(j, entries[j]));
    }
}

} // verus!
