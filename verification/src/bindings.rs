//! What adding bindings does to a symbol table.

use vstd::prelude::*;
use crate::ast::{Binding, Type};
use crate::rules::{bind_all, binds};

verus! {

/// Binding `first + rest` is binding `first`, then `rest`.
pub proof fn lemma_bind_all_concat(table: Map<Seq<char>, Type>, first: Seq<Binding>, rest: Seq<Binding>)
    ensures
        bind_all(table, first + rest) == bind_all(bind_all(table, first), rest),
    decreases rest.len(),
{
    if rest.len() > 0 {
        assert((first + rest).drop_last() == first + rest.drop_last());
        lemma_bind_all_concat(table, first, rest.drop_last());
    }
}

/// Binding adds names and removes none.
pub proof fn lemma_bind_all_domain(table: Map<Seq<char>, Type>, bindings: Seq<Binding>, name: Seq<char>)
    ensures
        bind_all(table, bindings).contains_key(name) <==> table.contains_key(name) || binds(bindings, name),
    decreases bindings.len(),
{
    if bindings.len() > 0 {
        let front = bindings.drop_last();
        lemma_bind_all_domain(table, front, name);
        if binds(bindings, name) {
            let i = choose|i: int| 0 <= i < bindings.len() && (#[trigger] bindings[i]).name == name;
            if i < front.len() {
                assert(front[i].name == name);
            }
        }
    }
}

/// Binding leaves a name that it does not bind as it was.
pub proof fn lemma_bind_all_keeps(table: Map<Seq<char>, Type>, bindings: Seq<Binding>, name: Seq<char>)
    requires
        !binds(bindings, name),
    ensures
        bind_all(table, bindings)[name] == table[name],
    decreases bindings.len(),
{
    if bindings.len() > 0 {
        let front = bindings.drop_last();
        assert forall|i: int| 0 <= i < front.len() implies (#[trigger] front[i]).name != name by {
            assert(bindings[i].name != name);
        }
        lemma_bind_all_keeps(table, front, name);
    }
}

/// Of several bindings of one name, the last one stands.
pub proof fn lemma_bind_all_last_wins(table: Map<Seq<char>, Type>, bindings: Seq<Binding>, i: int)
    requires
        0 <= i < bindings.len(),
        forall|later: int| i < later < bindings.len() ==> (#[trigger] bindings[later]).name != bindings[i].name,
    ensures
        bind_all(table, bindings)[bindings[i].name] == bindings[i].declared_type,
    decreases bindings.len(),
{
    let front = bindings.drop_last();
    if i < bindings.len() - 1 {
        assert forall|later: int| i < later < front.len() implies (#[trigger] front[later]).name
            != front[i].name by {
            assert(bindings[later].name != bindings[i].name);
        }
        lemma_bind_all_last_wins(table, front, i);
    }
}

/// What `bindings` bind a name to does not depend on the table that they
/// are added to.
pub proof fn lemma_bind_all_rebinds(
    one: Map<Seq<char>, Type>,
    other: Map<Seq<char>, Type>,
    bindings: Seq<Binding>,
    name: Seq<char>,
)
    requires
        binds(bindings, name),
    ensures
        bind_all(one, bindings)[name] == bind_all(other, bindings)[name],
    decreases bindings.len(),
{
    let front = bindings.drop_last();
    if bindings.last().name != name {
        let i = choose|i: int| 0 <= i < bindings.len() && (#[trigger] bindings[i]).name == name;
        assert(front[i].name == name);
        lemma_bind_all_rebinds(one, other, front, name);
    }
}

} // verus!
