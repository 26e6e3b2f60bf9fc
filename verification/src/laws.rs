//! Laws of the engine, stated and proved over the same specification
//! functions that the executable functions' contracts use.

use vstd::prelude::*;

use crate::ast::{Meta, SpecAttr, SpecBlock, SpecExpr, SpecItem, SpecMeta, SpecStmt};
use crate::dispatch::spec_maybe;
use crate::params::{SpecMacError, SpecMacroParameters};
use crate::rewrite::{
    SpecScopeEntry, spec_attr_if, spec_rw_block, spec_rw_expr, spec_rw_item, spec_rw_items,
    spec_rw_stmt, spec_rw_stmts,
};

verus! {

/// Determinism: the expansion is a pure function of the parameter list and
/// the input tree, so two results of the same invocation are identical.
pub proof fn lemma_expansion_deterministic(
    args: Seq<Meta>,
    item: SpecItem,
    r1: Result<Seq<SpecItem>, SpecMacError>,
    r2: Result<Seq<SpecItem>, SpecMacError>,
)
    requires
        r1 == spec_maybe(args, item),
        r2 == spec_maybe(args, item),
    ensures
        r1 == r2,
{
}

/// Statement lists are rewritten pointwise: the output has the same length
/// and each statement is exactly the rewrite of the one at the same place.
pub proof fn lemma_rw_stmts_elementwise(
    s: Seq<SpecStmt>,
    env: SpecMacroParameters,
    scopes: Seq<Seq<SpecScopeEntry>>,
)
    ensures
        spec_rw_stmts(s, env, scopes) matches Ok(o) ==> o.len() == s.len() && (forall|i: int|
            0 <= i < s.len() ==> spec_rw_stmt(s[i], env, scopes) == Result::<
                SpecStmt,
                SpecMacError,
            >::Ok(o[i])),
    decreases s,
{
    if s.len() > 0 {
        lemma_rw_stmts_elementwise(s.drop_last(), env, scopes);
    }
}

/// Suspend-erasure: in the blocking form a suspend-block whose rewritten
/// body is a single expression statement collapses to exactly that
/// expression; any other suspend-block becomes a plain block whose
/// statements are the rewritten originals, unchanged in order and number.
pub proof fn lemma_suspend_block_collapse(
    b: SpecBlock,
    env: SpecMacroParameters,
    scopes: Seq<Seq<SpecScopeEntry>>,
)
    requires
        env.mode is IntoSync,
    ensures
        spec_rw_block(b, env, scopes) matches Ok(b2) ==> {
            &&& (b2.stmts.len() == 1 && b2.stmts[0] is Expr) ==> spec_rw_expr(
                SpecExpr::Async(b),
                env,
                scopes,
            ) == Result::<SpecExpr, SpecMacError>::Ok(b2.stmts[0]->Expr_0)
            &&& !(b2.stmts.len() == 1 && b2.stmts[0] is Expr) ==> spec_rw_expr(
                SpecExpr::Async(b),
                env,
                scopes,
            ) == Result::<SpecExpr, SpecMacError>::Ok(SpecExpr::Block(b2))
            &&& b2.stmts.len() == b.stmts.len()
        },
{
    lemma_rw_stmts_elementwise(b.stmts, env, scopes);
}

/// Round-trip scope isolation: every item of a list is rewritten against
/// the same incoming environment and scope stack; what the traversal of one
/// sibling pushes is never visible to another.
pub proof fn lemma_sibling_isolation(
    items: Seq<SpecItem>,
    env: SpecMacroParameters,
    scopes: Seq<Seq<SpecScopeEntry>>,
)
    ensures
        spec_rw_items(items, env, scopes) matches Ok(o) ==> o.len() == items.len() && (
        forall|i: int|
            0 <= i < items.len() ==> spec_rw_item(items[i], env, scopes) == Result::<
                SpecItem,
                SpecMacError,
            >::Ok(o[i])),
    decreases items,
{
    if items.len() > 0 {
        lemma_sibling_isolation(items.drop_last(), env, scopes);
    }
}

/// Conditional-directive correctness: a `keep-if` directive whose argument
/// names the current variant's key resolves to the no-op marker, and to the
/// removal marker for every other key; its negation resolves the opposite
/// way.  The removal marker then deletes the annotated node in the erasure
/// pass.
pub proof fn lemma_conditional_directive(
    a: SpecAttr,
    env: SpecMacroParameters,
    x: Seq<char>,
    negated: bool,
)
    requires
        a.path.len() == 2,
        a.path[0] == env.prefix,
        a.args == seq![SpecMeta::NameValue("key"@, x)],
        env.key is Some,
    ensures
        ((env.key->0 == x) != negated) ==> spec_attr_if(a, env, negated) == Result::<
            SpecAttr,
            SpecMacError,
        >::Ok(SpecAttr { path: seq![env.prefix, "noop"@], args: a.args }),
        ((env.key->0 == x) == negated) ==> spec_attr_if(a, env, negated) == Result::<
            SpecAttr,
            SpecMacError,
        >::Ok(SpecAttr { path: seq![env.prefix, "remove"@], args: a.args }),
{
}

} // verus!
