//! The tree rewrite engine: a depth-first visitor that converts one tree
//! into the form of one variant.
//!
//! The rules, by node kind:
//! - suspension markers on functions and methods are removed when converting
//!   to the blocking form (and the recursive-removal flag is set);
//! - a suspend-expression is unwrapped to its operand in the blocking form;
//! - a suspend-block collapses to a plain block, or to its single
//!   expression statement, in the blocking form;
//! - a generic type parameter bounded by `Future<Output = T>` is removed
//!   from the signature and every path segment naming it is replaced by `T`,
//!   within that function only (scopes nest, innermost match wins);
//! - identifiers with a configured rule are renamed per variant, import
//!   trees through an alias binding when the rule says so;
//! - conditional directives are resolved to terminal markers, dropped
//!   attributes are removed, feature names inside `cfg` attributes are
//!   replaced, and variant-tagged documentation examples are filtered;
//! - arguments of the recognized diagnostic macros are rewritten as an
//!   expression list; other macro invocations are left untouched.

use vstd::prelude::*;

use crate::ast::{
    Attr, Block, Expr, Field, FnArg, FnDef, GenArg, Generics, Item, MacArgs, Meta, Path, PathSeg,
    Signature, SpecAttr, SpecBlock, SpecExpr, SpecField, SpecFnArg, SpecFnDef, SpecGenArg,
    SpecGenerics, SpecItem, SpecMacArgs, SpecMeta, SpecPath, SpecPathSeg, SpecSignature, SpecStmt,
    SpecTraitMethod, SpecTy, SpecTypeParam, SpecUseTree, SpecWherePred, Stmt, TraitMethod, Ty,
    TypeParam, UseTree, WherePred,
};
use crate::docfilter::spec_filter_doc_attrs;
use crate::params::{
    ConvertMode, MacroParameters, SpecMacError, SpecMacroParameters, spec_drop_attrs_contains,
    spec_idents_get, spec_is_standard_macro, spec_replace_features_get,
};
use crate::rename::spec_rename;

verus! {

// ---------------------------------------------------------------------------
// Generic binding scopes.
// ---------------------------------------------------------------------------

/// One binding of a generic binding scope: a type-parameter name and the
/// concrete path segment it resolves to.
#[derive(Debug, PartialEq, Eq)]
pub struct ScopeEntry {
    pub name: String,
    pub seg: PathSeg,
}

pub struct SpecScopeEntry {
    pub name: Seq<char>,
    pub seg: SpecPathSeg,
}

pub open spec fn entry_dv(e: ScopeEntry) -> SpecScopeEntry {
    SpecScopeEntry { name: e.name@, seg: crate::ast::seg_dv(e.seg) }
}

pub open spec fn entries_dv(s: Seq<ScopeEntry>) -> Seq<SpecScopeEntry>
    decreases s,
{
    if s.len() == 0 {
        Seq::empty()
    } else {
        entries_dv(s.drop_last()).push(entry_dv(s.last()))
    }
}

pub open spec fn scopes_dv(s: Seq<Vec<ScopeEntry>>) -> Seq<Seq<SpecScopeEntry>>
    decreases s,
{
    if s.len() == 0 {
        Seq::empty()
    } else {
        scopes_dv(s.drop_last()).push(entries_dv(s.last()@))
    }
}

/// The binding for `name` inside one scope; the last entry wins.
pub open spec fn spec_entries_get(entries: Seq<SpecScopeEntry>, name: Seq<char>) -> Option<
    SpecPathSeg,
>
    decreases entries,
{
    if entries.len() == 0 {
        Option::None
    } else if entries.last().name == name {
        Option::Some(entries.last().seg)
    } else {
        spec_entries_get(entries.drop_last(), name)
    }
}

/// The binding for `name` across the scope stack; the innermost (last
/// pushed) scope wins.
pub open spec fn spec_scopes_get(scopes: Seq<Seq<SpecScopeEntry>>, name: Seq<char>) -> Option<
    SpecPathSeg,
>
    decreases scopes,
{
    if scopes.len() == 0 {
        Option::None
    } else {
        match spec_entries_get(scopes.last(), name) {
            Option::Some(seg) => Option::Some(seg),
            Option::None => spec_scopes_get(scopes.drop_last(), name),
        }
    }
}

// ---------------------------------------------------------------------------
// Identifiers, paths and types.
// ---------------------------------------------------------------------------

/// One identifier occurrence: renamed when a rule is configured for it.
pub open spec fn spec_rw_ident(name: Seq<char>, env: SpecMacroParameters) -> Seq<char> {
    match spec_idents_get(env.idents, name) {
        Option::Some(rule) => spec_rename(rule, name, env.mode, env.key),
        Option::None => name,
    }
}

/// One path segment: in the blocking form a segment naming a bound generic
/// parameter is replaced by its recorded concrete segment; otherwise its
/// identifier is renamed and its generic arguments are rewritten.
pub open spec fn spec_rw_seg(
    seg: SpecPathSeg,
    env: SpecMacroParameters,
    scopes: Seq<Seq<SpecScopeEntry>>,
) -> SpecPathSeg
    decreases seg,
{
    if env.mode is IntoSync && spec_scopes_get(scopes, seg.ident) is Some {
        spec_scopes_get(scopes, seg.ident)->Some_0
    } else {
        SpecPathSeg { ident: spec_rw_ident(seg.ident, env), args: spec_rw_genargs(seg.args, env, scopes) }
    }
}

pub open spec fn spec_rw_segs(
    s: Seq<SpecPathSeg>,
    env: SpecMacroParameters,
    scopes: Seq<Seq<SpecScopeEntry>>,
) -> Seq<SpecPathSeg>
    decreases s,
{
    if s.len() == 0 {
        Seq::empty()
    } else {
        spec_rw_segs(s.drop_last(), env, scopes).push(spec_rw_seg(s.last(), env, scopes))
    }
}

pub open spec fn spec_rw_path(
    p: SpecPath,
    env: SpecMacroParameters,
    scopes: Seq<Seq<SpecScopeEntry>>,
) -> SpecPath
    decreases p,
{
    SpecPath { segments: spec_rw_segs(p.segments, env, scopes) }
}

pub open spec fn spec_rw_paths(
    s: Seq<SpecPath>,
    env: SpecMacroParameters,
    scopes: Seq<Seq<SpecScopeEntry>>,
) -> Seq<SpecPath>
    decreases s,
{
    if s.len() == 0 {
        Seq::empty()
    } else {
        spec_rw_paths(s.drop_last(), env, scopes).push(spec_rw_path(s.last(), env, scopes))
    }
}

pub open spec fn spec_rw_genarg(
    a: SpecGenArg,
    env: SpecMacroParameters,
    scopes: Seq<Seq<SpecScopeEntry>>,
) -> SpecGenArg
    decreases a,
{
    match a {
        SpecGenArg::Ty(t) => SpecGenArg::Ty(spec_rw_ty(t, env, scopes)),
        SpecGenArg::Binding(n, t) => SpecGenArg::Binding(n, Box::new(spec_rw_ty(*t, env, scopes))),
    }
}

pub open spec fn spec_rw_genargs(
    s: Seq<SpecGenArg>,
    env: SpecMacroParameters,
    scopes: Seq<Seq<SpecScopeEntry>>,
) -> Seq<SpecGenArg>
    decreases s,
{
    if s.len() == 0 {
        Seq::empty()
    } else {
        spec_rw_genargs(s.drop_last(), env, scopes).push(spec_rw_genarg(s.last(), env, scopes))
    }
}

pub open spec fn spec_rw_ty(
    t: SpecTy,
    env: SpecMacroParameters,
    scopes: Seq<Seq<SpecScopeEntry>>,
) -> SpecTy
    decreases t,
{
    match t {
        SpecTy::Path(p) => SpecTy::Path(spec_rw_path(p, env, scopes)),
        SpecTy::Opaque(s) => SpecTy::Opaque(s),
    }
}

pub open spec fn spec_rw_opt_ty(
    t: Option<SpecTy>,
    env: SpecMacroParameters,
    scopes: Seq<Seq<SpecScopeEntry>>,
) -> Option<SpecTy>
    decreases t,
{
    match t {
        Option::Some(t0) => Option::Some(spec_rw_ty(t0, env, scopes)),
        Option::None => Option::None,
    }
}

pub open spec fn spec_rw_typaram(
    t: SpecTypeParam,
    env: SpecMacroParameters,
    scopes: Seq<Seq<SpecScopeEntry>>,
) -> SpecTypeParam
    decreases t,
{
    SpecTypeParam {
        ident: spec_rw_ident(t.ident, env),
        bounds: spec_rw_paths(t.bounds, env, scopes),
    }
}

pub open spec fn spec_rw_typarams(
    s: Seq<SpecTypeParam>,
    env: SpecMacroParameters,
    scopes: Seq<Seq<SpecScopeEntry>>,
) -> Seq<SpecTypeParam>
    decreases s,
{
    if s.len() == 0 {
        Seq::empty()
    } else {
        spec_rw_typarams(s.drop_last(), env, scopes).push(spec_rw_typaram(s.last(), env, scopes))
    }
}

pub open spec fn spec_rw_pred(
    p: SpecWherePred,
    env: SpecMacroParameters,
    scopes: Seq<Seq<SpecScopeEntry>>,
) -> SpecWherePred
    decreases p,
{
    SpecWherePred {
        bounded: spec_rw_ty(p.bounded, env, scopes),
        bounds: spec_rw_paths(p.bounds, env, scopes),
    }
}

pub open spec fn spec_rw_preds(
    s: Seq<SpecWherePred>,
    env: SpecMacroParameters,
    scopes: Seq<Seq<SpecScopeEntry>>,
) -> Seq<SpecWherePred>
    decreases s,
{
    if s.len() == 0 {
        Seq::empty()
    } else {
        spec_rw_preds(s.drop_last(), env, scopes).push(spec_rw_pred(s.last(), env, scopes))
    }
}

pub open spec fn spec_rw_fnarg(
    a: SpecFnArg,
    env: SpecMacroParameters,
    scopes: Seq<Seq<SpecScopeEntry>>,
) -> SpecFnArg
    decreases a,
{
    SpecFnArg { name: spec_rw_ident(a.name, env), ty: spec_rw_ty(a.ty, env, scopes) }
}

pub open spec fn spec_rw_fnargs(
    s: Seq<SpecFnArg>,
    env: SpecMacroParameters,
    scopes: Seq<Seq<SpecScopeEntry>>,
) -> Seq<SpecFnArg>
    decreases s,
{
    if s.len() == 0 {
        Seq::empty()
    } else {
        spec_rw_fnargs(s.drop_last(), env, scopes).push(spec_rw_fnarg(s.last(), env, scopes))
    }
}

// ---------------------------------------------------------------------------
// Attributes.
// ---------------------------------------------------------------------------

/// The directive name of an attribute of this system's own directive set:
/// a two-segment path whose first segment is the configured prefix.
pub open spec fn spec_our_attr_name(a: SpecAttr, prefix: Seq<char>) -> Option<Seq<char>> {
    if a.path.len() == 2 && a.path[0] == prefix {
        Option::Some(a.path[1])
    } else {
        Option::None
    }
}

/// Resolve a conditional directive: its single argument names a variant key;
/// on a match (XOR the negation flag) the attribute becomes the no-op
/// marker, otherwise the removal marker.  A wrong argument count or kind is
/// an error.
pub open spec fn spec_attr_if(
    a: SpecAttr,
    env: SpecMacroParameters,
    negated: bool,
) -> Result<SpecAttr, SpecMacError> {
    if a.args.len() == 0 {
        Result::Err(SpecMacError::DirectiveArity(a.path[1]))
    } else if a.args.len() > 1 {
        Result::Err(SpecMacError::DirectiveArity(a.path[1]))
    } else {
        let key: Result<Seq<char>, SpecMacError> = match a.args[0] {
            SpecMeta::Str(s) => Result::Ok(s),
            SpecMeta::Word(w) => Result::Ok(w),
            SpecMeta::NameValue(n, v) => if n == "key"@ {
                Result::Ok(v)
            } else {
                Result::Err(SpecMacError::DirectiveArg(a.path[1]))
            },
            SpecMeta::List(_, _) => Result::Err(SpecMacError::DirectiveArg(a.path[1])),
        };
        match key {
            Result::Err(e) => Result::Err(e),
            Result::Ok(k) => {
                let success = match env.key {
                    Option::Some(ck) => (ck == k) != negated,
                    Option::None => false,
                };
                let new_name: Seq<char> = if success {
                    "noop"@
                } else {
                    "remove"@
                };
                Result::Ok(SpecAttr { path: seq![env.prefix, new_name], args: a.args })
            },
        }
    }
}

pub open spec fn spec_resolve_attr(a: SpecAttr, env: SpecMacroParameters) -> Result<
    SpecAttr,
    SpecMacError,
> {
    match spec_our_attr_name(a, env.prefix) {
        Option::Some(name) => if name == "only_if"@ {
            spec_attr_if(a, env, false)
        } else if name == "remove_if"@ {
            spec_attr_if(a, env, true)
        } else {
            Result::Ok(a)
        },
        Option::None => Result::Ok(a),
    }
}

pub open spec fn spec_resolve_attrs(s: Seq<SpecAttr>, env: SpecMacroParameters) -> Result<
    Seq<SpecAttr>,
    SpecMacError,
>
    decreases s,
{
    if s.len() == 0 {
        Result::Ok(Seq::empty())
    } else {
        match spec_resolve_attrs(s.drop_last(), env) {
            Result::Err(e) => Result::Err(e),
            Result::Ok(prev) => match spec_resolve_attr(s.last(), env) {
                Result::Err(e) => Result::Err(e),
                Result::Ok(a) => Result::Ok(prev.push(a)),
            },
        }
    }
}

/// Remove the attributes named in the variant's drop list.  Only an
/// attribute with a single-segment path can be dropped.
pub open spec fn spec_drop_attrs(s: Seq<SpecAttr>, names: Seq<Seq<char>>) -> Seq<SpecAttr>
    decreases s,
{
    if s.len() == 0 {
        Seq::empty()
    } else {
        let prev = spec_drop_attrs(s.drop_last(), names);
        let a = s.last();
        if a.path.len() == 1 && spec_drop_attrs_contains(names, a.path[0]) {
            prev
        } else {
            prev.push(a)
        }
    }
}

/// Replace configured feature names inside one attribute argument,
/// recursively through nested combinator lists.
pub open spec fn spec_replace_meta(m: SpecMeta, repls: Seq<crate::params::SpecFeatureRepl>) -> SpecMeta
    decreases m,
{
    match m {
        SpecMeta::NameValue(n, v) => if n == "feature"@ {
            match spec_replace_features_get(repls, v) {
                Option::Some(nv) => SpecMeta::NameValue(n, nv),
                Option::None => SpecMeta::NameValue(n, v),
            }
        } else {
            SpecMeta::NameValue(n, v)
        },
        SpecMeta::List(n, args) => SpecMeta::List(n, spec_replace_metas(args, repls)),
        SpecMeta::Word(w) => SpecMeta::Word(w),
        SpecMeta::Str(s) => SpecMeta::Str(s),
    }
}

pub open spec fn spec_replace_metas(
    s: Seq<SpecMeta>,
    repls: Seq<crate::params::SpecFeatureRepl>,
) -> Seq<SpecMeta>
    decreases s,
{
    if s.len() == 0 {
        Seq::empty()
    } else {
        spec_replace_metas(s.drop_last(), repls).push(spec_replace_meta(s.last(), repls))
    }
}

/// Rewrite feature names inside every `cfg` attribute.
pub open spec fn spec_replace_attrs(
    s: Seq<SpecAttr>,
    repls: Seq<crate::params::SpecFeatureRepl>,
) -> Seq<SpecAttr>
    decreases s,
{
    if s.len() == 0 {
        Seq::empty()
    } else {
        let prev = spec_replace_attrs(s.drop_last(), repls);
        let a = s.last();
        if a.path.len() == 1 && a.path[0] == "cfg"@ {
            prev.push(SpecAttr { path: a.path, args: spec_replace_metas(a.args, repls) })
        } else {
            prev.push(a)
        }
    }
}

/// The whole attribute pipeline of one node: documentation filtering, then
/// directive resolution, then the drop list, then feature replacement.
pub open spec fn spec_process_attrs(s: Seq<SpecAttr>, env: SpecMacroParameters) -> Result<
    Seq<SpecAttr>,
    SpecMacError,
> {
    let docs = spec_filter_doc_attrs(s, env.key);
    match spec_resolve_attrs(docs, env) {
        Result::Err(e) => Result::Err(e),
        Result::Ok(resolved) => Result::Ok(
            spec_replace_attrs(
                spec_drop_attrs(resolved, env.drop_attrs_list),
                env.replace_features,
            ),
        ),
    }
}

// ---------------------------------------------------------------------------
// Generic-bound collection and filtering.
// ---------------------------------------------------------------------------

/// A bound shaped as a suspension-producing trait reference with one
/// associated-result binding: its last segment is `Future` and its first
/// generic argument is a binding to a path type; the result is that type's
/// first segment.
pub open spec fn spec_future_bound(p: SpecPath) -> Option<SpecPathSeg> {
    if p.segments.len() == 0 {
        Option::None
    } else {
        let last = p.segments.last();
        if last.ident == "Future"@ && last.args.len() >= 1 {
            match last.args[0] {
                SpecGenArg::Binding(_, t) => match *t {
                    SpecTy::Path(tp) => if tp.segments.len() >= 1 {
                        Option::Some(tp.segments[0])
                    } else {
                        Option::None
                    },
                    SpecTy::Opaque(_) => Option::None,
                },
                SpecGenArg::Ty(_) => Option::None,
            }
        } else {
            Option::None
        }
    }
}

pub open spec fn spec_gens_from_bounds(name: Seq<char>, bounds: Seq<SpecPath>) -> Seq<
    SpecScopeEntry,
>
    decreases bounds,
{
    if bounds.len() == 0 {
        Seq::empty()
    } else {
        spec_gens_from_bounds(name, bounds.drop_last()) + (match spec_future_bound(bounds.last()) {
            Option::Some(seg) => seq![SpecScopeEntry { name: name, seg: seg }],
            Option::None => Seq::empty(),
        })
    }
}

pub open spec fn spec_gens_from_params(params: Seq<SpecTypeParam>) -> Seq<SpecScopeEntry>
    decreases params,
{
    if params.len() == 0 {
        Seq::empty()
    } else {
        spec_gens_from_params(params.drop_last()) + spec_gens_from_bounds(
            params.last().ident,
            params.last().bounds,
        )
    }
}

pub open spec fn spec_gens_from_preds(preds: Seq<SpecWherePred>) -> Result<
    Seq<SpecScopeEntry>,
    SpecMacError,
>
    decreases preds,
{
    if preds.len() == 0 {
        Result::Ok(Seq::empty())
    } else {
        match spec_gens_from_preds(preds.drop_last()) {
            Result::Err(e) => Result::Err(e),
            Result::Ok(prev) => match preds.last().bounded {
                SpecTy::Opaque(s) => Result::Err(SpecMacError::UnexpectedBound(s)),
                SpecTy::Path(p) => if p.segments.len() == 0 {
                    Result::Err(SpecMacError::UnexpectedBound(Seq::empty()))
                } else {
                    Result::Ok(
                        prev + spec_gens_from_bounds(p.segments[0].ident, preds.last().bounds),
                    )
                },
            },
        }
    }
}

/// The generic binding scope of one function declaration: every type
/// parameter and where-predicate carrying a suspension-producing bound.
pub open spec fn spec_collect_gens(g: SpecGenerics) -> Result<Seq<SpecScopeEntry>, SpecMacError> {
    match spec_gens_from_preds(g.preds) {
        Result::Err(e) => Result::Err(e),
        Result::Ok(from_preds) => Result::Ok(spec_gens_from_params(g.params) + from_preds),
    }
}

/// Remove the generic parameters that are being substituted away.
pub open spec fn spec_filter_params(
    params: Seq<SpecTypeParam>,
    scopes: Seq<Seq<SpecScopeEntry>>,
) -> Seq<SpecTypeParam>
    decreases params,
{
    if params.len() == 0 {
        Seq::empty()
    } else {
        let prev = spec_filter_params(params.drop_last(), scopes);
        if spec_scopes_get(scopes, params.last().ident) is Some {
            prev
        } else {
            prev.push(params.last())
        }
    }
}

/// Remove the where-clause predicates naming a substituted parameter.
pub open spec fn spec_filter_preds(
    preds: Seq<SpecWherePred>,
    scopes: Seq<Seq<SpecScopeEntry>>,
) -> Seq<SpecWherePred>
    decreases preds,
{
    if preds.len() == 0 {
        Seq::empty()
    } else {
        let prev = spec_filter_preds(preds.drop_last(), scopes);
        let p = preds.last();
        let named = match p.bounded {
            SpecTy::Path(bp) => bp.segments.len() > 0 && spec_scopes_get(
                scopes,
                bp.segments[0].ident,
            ) is Some,
            SpecTy::Opaque(_) => false,
        };
        if named {
            prev
        } else {
            prev.push(p)
        }
    }
}

} // verus!

verus! {

// ---------------------------------------------------------------------------
// Expressions, statements, items.
// ---------------------------------------------------------------------------

pub open spec fn spec_rw_expr(
    e: SpecExpr,
    env: SpecMacroParameters,
    scopes: Seq<Seq<SpecScopeEntry>>,
) -> Result<SpecExpr, SpecMacError>
    decreases e, 0int,
{
    match e {
        SpecExpr::Path(p) => Result::Ok(SpecExpr::Path(spec_rw_path(p, env, scopes))),
        SpecExpr::Lit(s) => Result::Ok(SpecExpr::Lit(s)),
        SpecExpr::Call(f, args) => match spec_rw_expr(*f, env, scopes) {
            Result::Err(er) => Result::Err(er),
            Result::Ok(f2) => match spec_rw_exprs(args, env, scopes) {
                Result::Err(er) => Result::Err(er),
                Result::Ok(a2) => Result::Ok(SpecExpr::Call(Box::new(f2), a2)),
            },
        },
        SpecExpr::Await(inner) => if env.mode is IntoSync {
            spec_rw_expr(*inner, env, scopes)
        } else {
            match spec_rw_expr(*inner, env, scopes) {
                Result::Err(er) => Result::Err(er),
                Result::Ok(i2) => Result::Ok(SpecExpr::Await(Box::new(i2))),
            }
        },
        SpecExpr::Async(b) => match spec_rw_block(b, env, scopes) {
            Result::Err(er) => Result::Err(er),
            Result::Ok(b2) => if env.mode is IntoSync {
                if b2.stmts.len() == 1 && b2.stmts[0] is Expr {
                    Result::Ok(b2.stmts[0]->Expr_0)
                } else {
                    Result::Ok(SpecExpr::Block(b2))
                }
            } else {
                Result::Ok(SpecExpr::Async(b2))
            },
        },
        SpecExpr::Block(b) => match spec_rw_block(b, env, scopes) {
            Result::Err(er) => Result::Err(er),
            Result::Ok(b2) => Result::Ok(SpecExpr::Block(b2)),
        },
        SpecExpr::MacroCall(p, margs) => {
            let standard = p.segments.len() == 1 && p.segments[0].args.len() == 0
                && spec_is_standard_macro(p.segments[0].ident);
            let p2 = spec_rw_path(p, env, scopes);
            if standard {
                match margs {
                    SpecMacArgs::Exprs(es) => match spec_rw_exprs(es, env, scopes) {
                        Result::Err(er) => Result::Err(er),
                        Result::Ok(es2) => Result::Ok(
                            SpecExpr::MacroCall(p2, SpecMacArgs::Exprs(es2)),
                        ),
                    },
                    SpecMacArgs::Raw(s) => Result::Err(SpecMacError::MacroArgs(s)),
                }
            } else {
                Result::Ok(SpecExpr::MacroCall(p2, margs))
            }
        },
    }
}

pub open spec fn spec_rw_exprs(
    s: Seq<SpecExpr>,
    env: SpecMacroParameters,
    scopes: Seq<Seq<SpecScopeEntry>>,
) -> Result<Seq<SpecExpr>, SpecMacError>
    decreases s, 0int,
{
    if s.len() == 0 {
        Result::Ok(Seq::empty())
    } else {
        match spec_rw_exprs(s.drop_last(), env, scopes) {
            Result::Err(er) => Result::Err(er),
            Result::Ok(prev) => match spec_rw_expr(s.last(), env, scopes) {
                Result::Err(er) => Result::Err(er),
                Result::Ok(e2) => Result::Ok(prev.push(e2)),
            },
        }
    }
}

pub open spec fn spec_rw_stmt(
    s: SpecStmt,
    env: SpecMacroParameters,
    scopes: Seq<Seq<SpecScopeEntry>>,
) -> Result<SpecStmt, SpecMacError>
    decreases s, 0int,
{
    match s {
        SpecStmt::Expr(e) => match spec_rw_expr(e, env, scopes) {
            Result::Err(er) => Result::Err(er),
            Result::Ok(e2) => Result::Ok(SpecStmt::Expr(e2)),
        },
        SpecStmt::Let(n, e) => match spec_rw_expr(*e, env, scopes) {
            Result::Err(er) => Result::Err(er),
            Result::Ok(e2) => Result::Ok(SpecStmt::Let(spec_rw_ident(n, env), Box::new(e2))),
        },
        SpecStmt::Item(i) => match spec_rw_item(*i, env, scopes) {
            Result::Err(er) => Result::Err(er),
            Result::Ok(i2) => Result::Ok(SpecStmt::Item(Box::new(i2))),
        },
    }
}

pub open spec fn spec_rw_stmts(
    s: Seq<SpecStmt>,
    env: SpecMacroParameters,
    scopes: Seq<Seq<SpecScopeEntry>>,
) -> Result<Seq<SpecStmt>, SpecMacError>
    decreases s, 0int,
{
    if s.len() == 0 {
        Result::Ok(Seq::empty())
    } else {
        match spec_rw_stmts(s.drop_last(), env, scopes) {
            Result::Err(er) => Result::Err(er),
            Result::Ok(prev) => match spec_rw_stmt(s.last(), env, scopes) {
                Result::Err(er) => Result::Err(er),
                Result::Ok(s2) => Result::Ok(prev.push(s2)),
            },
        }
    }
}

pub open spec fn spec_rw_block(
    b: SpecBlock,
    env: SpecMacroParameters,
    scopes: Seq<Seq<SpecScopeEntry>>,
) -> Result<SpecBlock, SpecMacError>
    decreases b, 0int,
{
    match spec_rw_stmts(b.stmts, env, scopes) {
        Result::Err(er) => Result::Err(er),
        Result::Ok(ss) => Result::Ok(SpecBlock { stmts: ss }),
    }
}

pub open spec fn spec_rw_opt_block(
    b: Option<SpecBlock>,
    env: SpecMacroParameters,
    scopes: Seq<Seq<SpecScopeEntry>>,
) -> Result<Option<SpecBlock>, SpecMacError>
    decreases b, 0int,
{
    match b {
        Option::Some(b0) => match spec_rw_block(b0, env, scopes) {
            Result::Err(er) => Result::Err(er),
            Result::Ok(b2) => Result::Ok(Option::Some(b2)),
        },
        Option::None => Result::Ok(Option::None),
    }
}

/// One import-tree node.  A renamed leaf under a `use`-mode rule becomes an
/// alias binding, leaving the imported path valid; a prefix segment under a
/// `use`-mode rule stays unchanged.
pub open spec fn spec_rw_usetree(t: SpecUseTree, env: SpecMacroParameters) -> SpecUseTree
    decreases t,
{
    match t {
        SpecUseTree::Prefix(n, sub) => {
            let n2 = match spec_idents_get(env.idents, n) {
                Option::Some(rule) => if !rule.use_mode {
                    spec_rename(rule, n, env.mode, env.key)
                } else {
                    n
                },
                Option::None => n,
            };
            SpecUseTree::Prefix(n2, Box::new(spec_rw_usetree(*sub, env)))
        },
        SpecUseTree::Name(n) => match spec_idents_get(env.idents, n) {
            Option::Some(rule) => if rule.use_mode {
                SpecUseTree::Rename(n, spec_rename(rule, n, env.mode, env.key))
            } else {
                SpecUseTree::Name(spec_rename(rule, n, env.mode, env.key))
            },
            Option::None => SpecUseTree::Name(n),
        },
        SpecUseTree::Rename(n, a) => SpecUseTree::Rename(n, a),
        SpecUseTree::Group(ts) => SpecUseTree::Group(spec_rw_usetrees(ts, env)),
        SpecUseTree::Glob => SpecUseTree::Glob,
    }
}

pub open spec fn spec_rw_usetrees(s: Seq<SpecUseTree>, env: SpecMacroParameters) -> Seq<
    SpecUseTree,
>
    decreases s,
{
    if s.len() == 0 {
        Seq::empty()
    } else {
        spec_rw_usetrees(s.drop_last(), env).push(spec_rw_usetree(s.last(), env))
    }
}

pub open spec fn spec_rw_field(
    f: SpecField,
    env: SpecMacroParameters,
    scopes: Seq<Seq<SpecScopeEntry>>,
) -> Result<SpecField, SpecMacError>
    decreases f, 0int,
{
    match spec_process_attrs(f.attrs, env) {
        Result::Err(er) => Result::Err(er),
        Result::Ok(attrs) => Result::Ok(
            SpecField {
                attrs: attrs,
                ident: spec_rw_ident(f.ident, env),
                ty: spec_rw_ty(f.ty, env, scopes),
            },
        ),
    }
}

pub open spec fn spec_rw_fields(
    s: Seq<SpecField>,
    env: SpecMacroParameters,
    scopes: Seq<Seq<SpecScopeEntry>>,
) -> Result<Seq<SpecField>, SpecMacError>
    decreases s, 0int,
{
    if s.len() == 0 {
        Result::Ok(Seq::empty())
    } else {
        match spec_rw_fields(s.drop_last(), env, scopes) {
            Result::Err(er) => Result::Err(er),
            Result::Ok(prev) => match spec_rw_field(s.last(), env, scopes) {
                Result::Err(er) => Result::Err(er),
                Result::Ok(f2) => Result::Ok(prev.push(f2)),
            },
        }
    }
}

/// Whether the suspension marker of a signature is stripped.
pub open spec fn spec_strip_async(is_async: bool, env: SpecMacroParameters) -> bool {
    if env.mode is IntoSync && env.recursive_asyncness_removal {
        false
    } else {
        is_async
    }
}

/// A signature without its generic-parameter bookkeeping: identifier
/// renaming and type rewriting under the given scopes.
pub open spec fn spec_rw_sig_parts(
    sig: SpecSignature,
    env: SpecMacroParameters,
    scopes: Seq<Seq<SpecScopeEntry>>,
    params: Seq<SpecTypeParam>,
    preds: Seq<SpecWherePred>,
) -> SpecSignature {
    SpecSignature {
        is_async: spec_strip_async(sig.is_async, env),
        ident: spec_rw_ident(sig.ident, env),
        generics: SpecGenerics {
            params: spec_rw_typarams(params, env, scopes),
            preds: spec_rw_preds(preds, env, scopes),
        },
        inputs: spec_rw_fnargs(sig.inputs, env, scopes),
        output: spec_rw_opt_ty(sig.output, env, scopes),
    }
}

/// A trait method or an implementation method: no generic-bound
/// substitution scope of its own.
pub open spec fn spec_rw_method(
    m: SpecTraitMethod,
    env: SpecMacroParameters,
    scopes: Seq<Seq<SpecScopeEntry>>,
) -> Result<SpecTraitMethod, SpecMacError>
    decreases m, 0int,
{
    match spec_process_attrs(m.attrs, env) {
        Result::Err(er) => Result::Err(er),
        Result::Ok(attrs) => match spec_rw_opt_block(m.body, env, scopes) {
            Result::Err(er) => Result::Err(er),
            Result::Ok(body) => Result::Ok(
                SpecTraitMethod {
                    attrs: attrs,
                    sig: spec_rw_sig_parts(
                        m.sig,
                        env,
                        scopes,
                        m.sig.generics.params,
                        m.sig.generics.preds,
                    ),
                    body: body,
                },
            ),
        },
    }
}

pub open spec fn spec_rw_methods(
    s: Seq<SpecTraitMethod>,
    env: SpecMacroParameters,
    scopes: Seq<Seq<SpecScopeEntry>>,
) -> Result<Seq<SpecTraitMethod>, SpecMacError>
    decreases s, 0int,
{
    if s.len() == 0 {
        Result::Ok(Seq::empty())
    } else {
        match spec_rw_methods(s.drop_last(), env, scopes) {
            Result::Err(er) => Result::Err(er),
            Result::Ok(prev) => match spec_rw_method(s.last(), env, scopes) {
                Result::Err(er) => Result::Err(er),
                Result::Ok(m2) => Result::Ok(prev.push(m2)),
            },
        }
    }
}

pub open spec fn spec_rw_impl_fn(
    f: SpecFnDef,
    env: SpecMacroParameters,
    scopes: Seq<Seq<SpecScopeEntry>>,
) -> Result<SpecFnDef, SpecMacError>
    decreases f, 0int,
{
    match spec_process_attrs(f.attrs, env) {
        Result::Err(er) => Result::Err(er),
        Result::Ok(attrs) => match spec_rw_block(f.body, env, scopes) {
            Result::Err(er) => Result::Err(er),
            Result::Ok(body) => Result::Ok(
                SpecFnDef {
                    attrs: attrs,
                    sig: spec_rw_sig_parts(
                        f.sig,
                        env,
                        scopes,
                        f.sig.generics.params,
                        f.sig.generics.preds,
                    ),
                    body: body,
                },
            ),
        },
    }
}

pub open spec fn spec_rw_impl_fns(
    s: Seq<SpecFnDef>,
    env: SpecMacroParameters,
    scopes: Seq<Seq<SpecScopeEntry>>,
) -> Result<Seq<SpecFnDef>, SpecMacError>
    decreases s, 0int,
{
    if s.len() == 0 {
        Result::Ok(Seq::empty())
    } else {
        match spec_rw_impl_fns(s.drop_last(), env, scopes) {
            Result::Err(er) => Result::Err(er),
            Result::Ok(prev) => match spec_rw_impl_fn(s.last(), env, scopes) {
                Result::Err(er) => Result::Err(er),
                Result::Ok(f2) => Result::Ok(prev.push(f2)),
            },
        }
    }
}

/// A free function: in the blocking form its suspension-producing generic
/// bounds are collected into a fresh scope, pushed for the duration of this
/// function's traversal; the matched parameters and predicates are removed
/// from the emitted signature.
pub open spec fn spec_rw_fn(
    f: SpecFnDef,
    env: SpecMacroParameters,
    scopes: Seq<Seq<SpecScopeEntry>>,
) -> Result<SpecFnDef, SpecMacError>
    decreases f, 1int,
{
    if env.mode is IntoSync {
        match spec_collect_gens(f.sig.generics) {
            Result::Err(er) => Result::Err(er),
            Result::Ok(gens) => {
                let scopes2 = scopes.push(gens);
                let params2 = spec_filter_params(f.sig.generics.params, scopes2);
                let preds2 = spec_filter_preds(f.sig.generics.preds, scopes2);
                match spec_process_attrs(f.attrs, env) {
                    Result::Err(er) => Result::Err(er),
                    Result::Ok(attrs) => match spec_rw_block(f.body, env, scopes2) {
                        Result::Err(er) => Result::Err(er),
                        Result::Ok(body) => Result::Ok(
                            SpecFnDef {
                                attrs: attrs,
                                sig: spec_rw_sig_parts(f.sig, env, scopes2, params2, preds2),
                                body: body,
                            },
                        ),
                    },
                }
            },
        }
    } else {
        spec_rw_impl_fn(f, env, scopes)
    }
}

/// The adapter attribute prepended to a suspending trait implementation.
pub open spec fn spec_send_attr(send: bool) -> SpecAttr {
    SpecAttr {
        path: seq!["async_trait"@, "async_trait"@],
        args: if send {
            Seq::empty()
        } else {
            seq![SpecMeta::Word("?Send"@)]
        },
    }
}

pub open spec fn spec_rw_item(
    i: SpecItem,
    env: SpecMacroParameters,
    scopes: Seq<Seq<SpecScopeEntry>>,
) -> Result<SpecItem, SpecMacError>
    decreases i, 0int,
{
    match i {
        SpecItem::Fn(f) => match spec_rw_fn(f, env, scopes) {
            Result::Err(er) => Result::Err(er),
            Result::Ok(f2) => Result::Ok(SpecItem::Fn(f2)),
        },
        SpecItem::Struct { attrs, ident, fields } => match spec_process_attrs(attrs, env) {
            Result::Err(er) => Result::Err(er),
            Result::Ok(attrs2) => match spec_rw_fields(fields, env, scopes) {
                Result::Err(er) => Result::Err(er),
                Result::Ok(fields2) => Result::Ok(
                    SpecItem::Struct {
                        attrs: attrs2,
                        ident: spec_rw_ident(ident, env),
                        fields: fields2,
                    },
                ),
            },
        },
        SpecItem::Trait { attrs, ident, methods } => match spec_process_attrs(attrs, env) {
            Result::Err(er) => Result::Err(er),
            Result::Ok(attrs2) => match spec_rw_methods(methods, env, scopes) {
                Result::Err(er) => Result::Err(er),
                Result::Ok(methods2) => Result::Ok(
                    SpecItem::Trait {
                        attrs: attrs2,
                        ident: spec_rw_ident(ident, env),
                        methods: methods2,
                    },
                ),
            },
        },
        SpecItem::Impl { attrs, trait_path, self_ty, methods } => match spec_process_attrs(
            attrs,
            env,
        ) {
            Result::Err(er) => Result::Err(er),
            Result::Ok(attrs2) => match spec_rw_impl_fns(methods, env, scopes) {
                Result::Err(er) => Result::Err(er),
                Result::Ok(methods2) => {
                    let attrs3 = if env.mode is IntoAsync && env.recursive_asyncness_removal {
                        match env.send {
                            Option::Some(b) => attrs2.push(spec_send_attr(b)),
                            Option::None => attrs2,
                        }
                    } else {
                        attrs2
                    };
                    let trait_path2 = match trait_path {
                        Option::Some(p) => Option::Some(spec_rw_path(p, env, scopes)),
                        Option::None => Option::None,
                    };
                    Result::Ok(
                        SpecItem::Impl {
                            attrs: attrs3,
                            trait_path: trait_path2,
                            self_ty: spec_rw_ty(self_ty, env, scopes),
                            methods: methods2,
                        },
                    )
                },
            },
        },
        SpecItem::Use { attrs, tree } => match spec_process_attrs(attrs, env) {
            Result::Err(er) => Result::Err(er),
            Result::Ok(attrs2) => Result::Ok(
                SpecItem::Use { attrs: attrs2, tree: spec_rw_usetree(tree, env) },
            ),
        },
        SpecItem::Mod { attrs, ident, items } => match spec_process_attrs(attrs, env) {
            Result::Err(er) => Result::Err(er),
            Result::Ok(attrs2) => match spec_rw_items(items, env, scopes) {
                Result::Err(er) => Result::Err(er),
                Result::Ok(items2) => Result::Ok(
                    SpecItem::Mod {
                        attrs: attrs2,
                        ident: spec_rw_ident(ident, env),
                        items: items2,
                    },
                ),
            },
        },
    }
}

pub open spec fn spec_rw_items(
    s: Seq<SpecItem>,
    env: SpecMacroParameters,
    scopes: Seq<Seq<SpecScopeEntry>>,
) -> Result<Seq<SpecItem>, SpecMacError>
    decreases s, 0int,
{
    if s.len() == 0 {
        Result::Ok(Seq::empty())
    } else {
        match spec_rw_items(s.drop_last(), env, scopes) {
            Result::Err(er) => Result::Err(er),
            Result::Ok(prev) => match spec_rw_item(s.last(), env, scopes) {
                Result::Err(er) => Result::Err(er),
                Result::Ok(i2) => Result::Ok(prev.push(i2)),
            },
        }
    }
}

} // verus!

verus! {

// ---------------------------------------------------------------------------
// Result views.
// ---------------------------------------------------------------------------

pub open spec fn res_attrs_dv(r: Result<Vec<Attr>, crate::params::MacError>) -> Result<
    Seq<SpecAttr>,
    SpecMacError,
> {
    match r {
        Result::Ok(v) => Result::Ok(crate::ast::attrs_dv(v@)),
        Result::Err(e) => Result::Err(crate::params::err_dv(e)),
    }
}

pub open spec fn res_attr_dv(r: Result<Attr, crate::params::MacError>) -> Result<
    SpecAttr,
    SpecMacError,
> {
    match r {
        Result::Ok(a) => Result::Ok(crate::ast::attr_dv(a)),
        Result::Err(e) => Result::Err(crate::params::err_dv(e)),
    }
}

// ---------------------------------------------------------------------------
// The visitor.
// ---------------------------------------------------------------------------

/// The rewrite visitor of one variant: the merged parameters plus the
/// conversion mode.  The generic binding scopes are threaded through the
/// traversal as an explicit argument, so the visitor itself is immutable.
pub struct AsyncAwaitVisitor {
    pub params: MacroParameters,
}

impl AsyncAwaitVisitor {
    pub open spec fn env(&self) -> SpecMacroParameters {
        crate::params::params_dv(self.params)
    }

    pub fn new(params: MacroParameters, convert_mode: ConvertMode) -> (r: Self)
        ensures
            r.env() == (SpecMacroParameters {
                mode: convert_mode,
                ..crate::params::params_dv(params)
            }),
    {
        let mut p = params;
        p.mode = convert_mode;
        AsyncAwaitVisitor { params: p }
    }
}

// ---------------------------------------------------------------------------
// Scope lookups.
// ---------------------------------------------------------------------------

fn entries_get_upto<'a>(entries: &'a Vec<ScopeEntry>, name: &String, n: usize) -> (r: Option<
    &'a PathSeg,
>)
    requires
        n <= entries@.len(),
    ensures
        match r {
            Option::Some(seg) => spec_entries_get(entries_dv(entries@.take(n as int)), name@)
                == Option::Some(crate::ast::seg_dv(*seg)),
            Option::None => spec_entries_get(entries_dv(entries@.take(n as int)), name@) is None,
        },
    decreases n,
{
    if n == 0 {
        proof {
            assert(entries@.take(0) =~= Seq::<ScopeEntry>::empty());
        }
        Option::None
    } else {
        proof {
            lemma_entries_dv(entries@.take(n as int));
            lemma_entries_dv(entries@.take(n as int - 1));
            assert(entries_dv(entries@.take(n as int)).drop_last() =~= entries_dv(
                entries@.take(n as int - 1),
            ));
        }
        if crate::ast::string_eq(&entries[n - 1].name, name) {
            Option::Some(&entries[n - 1].seg)
        } else {
            entries_get_upto(entries, name, n - 1)
        }
    }
}

pub proof fn lemma_entries_dv(s: Seq<ScopeEntry>)
    ensures
        entries_dv(s).len() == s.len(),
        forall|i: int| 0 <= i < s.len() ==> entries_dv(s)[i] == entry_dv(s[i]),
    decreases s,
{
    if s.len() > 0 {
        lemma_entries_dv(s.drop_last());
    }
}

pub proof fn lemma_scopes_dv(s: Seq<Vec<ScopeEntry>>)
    ensures
        scopes_dv(s).len() == s.len(),
        forall|i: int| 0 <= i < s.len() ==> scopes_dv(s)[i] == entries_dv(s[i]@),
    decreases s,
{
    if s.len() > 0 {
        lemma_scopes_dv(s.drop_last());
    }
}

fn scopes_get_upto<'a>(scopes: &'a Vec<Vec<ScopeEntry>>, name: &String, n: usize) -> (r: Option<
    &'a PathSeg,
>)
    requires
        n <= scopes@.len(),
    ensures
        match r {
            Option::Some(seg) => spec_scopes_get(scopes_dv(scopes@.take(n as int)), name@)
                == Option::Some(crate::ast::seg_dv(*seg)),
            Option::None => spec_scopes_get(scopes_dv(scopes@.take(n as int)), name@) is None,
        },
    decreases n,
{
    if n == 0 {
        proof {
            assert(scopes@.take(0) =~= Seq::<Vec<ScopeEntry>>::empty());
        }
        Option::None
    } else {
        proof {
            lemma_scopes_dv(scopes@.take(n as int));
            lemma_scopes_dv(scopes@.take(n as int - 1));
            assert(scopes_dv(scopes@.take(n as int)).drop_last() =~= scopes_dv(
                scopes@.take(n as int - 1),
            ));
        }
        let inner = &scopes[n - 1];
        proof {
            assert(inner@.take(inner@.len() as int) =~= inner@);
        }
        match entries_get_upto(inner, name, inner.len()) {
            Option::Some(seg) => Option::Some(seg),
            Option::None => scopes_get_upto(scopes, name, n - 1),
        }
    }
}

impl AsyncAwaitVisitor {
    /// The innermost binding of a generic type-parameter name, if one is in
    /// scope.
    pub fn generics_get<'a>(
        &self,
        scopes: &'a Vec<Vec<ScopeEntry>>,
        name: &String,
    ) -> (r: Option<&'a PathSeg>)
        ensures
            match r {
                Option::Some(seg) => spec_scopes_get(scopes_dv(scopes@), name@) == Option::Some(
                    crate::ast::seg_dv(*seg),
                ),
                Option::None => spec_scopes_get(scopes_dv(scopes@), name@) is None,
            },
    {
        proof {
            assert(scopes@.take(scopes@.len() as int) =~= scopes@);
        }
        scopes_get_upto(scopes, name, scopes.len())
    }

    // -----------------------------------------------------------------------
    // Identifiers, paths and types.
    // -----------------------------------------------------------------------

    pub fn process_ident(&self, name: String) -> (r: String)
        ensures
            r@ == spec_rw_ident(name@, self.env()),
    {
        match self.params.idents_get(&name) {
            Option::Some(rule) => crate::rename::ident_add_suffix(
                rule,
                &name,
                self.params.mode,
                &self.params.key,
            ),
            Option::None => name,
        }
    }

    pub fn process_path_segment(&self, seg: PathSeg, scopes: &Vec<Vec<ScopeEntry>>) -> (r:
        PathSeg)
        ensures
            crate::ast::seg_dv(r) == spec_rw_seg(crate::ast::seg_dv(seg), self.env(), scopes_dv(scopes@)),
        decreases seg, 0int,
    {
        if self.params.mode == ConvertMode::IntoSync {
            if let Option::Some(ps) = self.generics_get(scopes, &seg.ident) {
                return crate::ast::clone_seg(ps);
            }
        }
        let PathSeg { ident, args } = seg;
        PathSeg { ident: self.process_ident(ident), args: self.process_genargs(args, scopes) }
    }

    pub fn process_genargs(&self, mut v: Vec<GenArg>, scopes: &Vec<Vec<ScopeEntry>>) -> (r: Vec<
        GenArg,
    >)
        ensures
            crate::ast::genargs_dv(r@) == spec_rw_genargs(
                crate::ast::genargs_dv(v@),
                self.env(),
                scopes_dv(scopes@),
            ),
        decreases v@, 1int,
    {
        proof {
            let s = crate::ast::genargs_dv(v@);
            if v@.len() > 0 {
                assert(crate::ast::genargs_dv(v@.drop_last()).push(
                    crate::ast::genarg_dv(v@.last()),
                ).drop_last() =~= crate::ast::genargs_dv(v@.drop_last()));
            }
        }
        if v.len() == 0 {
            v
        } else {
            let last = v.pop().unwrap();
            let mut prev = self.process_genargs(v, scopes);
            let last2 = self.process_genarg(last, scopes);
            let ghost pp = prev@;
            prev.push(last2);
            proof {
                assert(prev@.drop_last() =~= pp);
                assert(prev@.last() == last2);
            }
            prev
        }
    }

    pub fn process_genarg(&self, a: GenArg, scopes: &Vec<Vec<ScopeEntry>>) -> (r: GenArg)
        ensures
            crate::ast::genarg_dv(r) == spec_rw_genarg(
                crate::ast::genarg_dv(a),
                self.env(),
                scopes_dv(scopes@),
            ),
        decreases a, 0int,
    {
        match a {
            GenArg::Ty(t) => GenArg::Ty(self.process_ty(t, scopes)),
            GenArg::Binding(n, t) => GenArg::Binding(n, self.process_ty(t, scopes)),
        }
    }

    pub fn process_ty(&self, t: Ty, scopes: &Vec<Vec<ScopeEntry>>) -> (r: Ty)
        ensures
            crate::ast::ty_dv(r) == spec_rw_ty(crate::ast::ty_dv(t), self.env(), scopes_dv(scopes@)),
        decreases t, 0int,
    {
        match t {
            Ty::Path(p) => Ty::Path(self.process_path(p, scopes)),
            Ty::Opaque(s) => Ty::Opaque(s),
        }
    }

    pub fn process_path(&self, p: Path, scopes: &Vec<Vec<ScopeEntry>>) -> (r: Path)
        ensures
            crate::ast::path_dv(r) == spec_rw_path(crate::ast::path_dv(p), self.env(), scopes_dv(scopes@)),
        decreases p, 1int,
    {
        let Path { segments } = p;
        Path { segments: self.process_segs(segments, scopes) }
    }

    pub fn process_segs(&self, mut v: Vec<PathSeg>, scopes: &Vec<Vec<ScopeEntry>>) -> (r: Vec<
        PathSeg,
    >)
        ensures
            crate::ast::segs_dv(r@) == spec_rw_segs(
                crate::ast::segs_dv(v@),
                self.env(),
                scopes_dv(scopes@),
            ),
        decreases v@, 1int,
    {
        proof {
            if v@.len() > 0 {
                assert(crate::ast::segs_dv(v@.drop_last()).push(crate::ast::seg_dv(v@.last()))
                    .drop_last() =~= crate::ast::segs_dv(v@.drop_last()));
            }
        }
        if v.len() == 0 {
            v
        } else {
            let last = v.pop().unwrap();
            let mut prev = self.process_segs(v, scopes);
            let last2 = self.process_path_segment(last, scopes);
            let ghost pp = prev@;
            prev.push(last2);
            proof {
                assert(prev@.drop_last() =~= pp);
                assert(prev@.last() == last2);
            }
            prev
        }
    }

    pub fn process_paths(&self, mut v: Vec<Path>, scopes: &Vec<Vec<ScopeEntry>>) -> (r: Vec<Path>)
        ensures
            crate::ast::paths_dv(r@) == spec_rw_paths(
                crate::ast::paths_dv(v@),
                self.env(),
                scopes_dv(scopes@),
            ),
        decreases v@, 2int,
    {
        proof {
            if v@.len() > 0 {
                assert(crate::ast::paths_dv(v@.drop_last()).push(crate::ast::path_dv(v@.last()))
                    .drop_last() =~= crate::ast::paths_dv(v@.drop_last()));
            }
        }
        if v.len() == 0 {
            v
        } else {
            let last = v.pop().unwrap();
            let mut prev = self.process_paths(v, scopes);
            let last2 = self.process_path(last, scopes);
            let ghost pp = prev@;
            prev.push(last2);
            proof {
                assert(prev@.drop_last() =~= pp);
                assert(prev@.last() == last2);
            }
            prev
        }
    }

    pub fn process_opt_ty(&self, t: Option<Ty>, scopes: &Vec<Vec<ScopeEntry>>) -> (r: Option<Ty>)
        ensures
            crate::ast::opt_ty_dv(r) == spec_rw_opt_ty(
                crate::ast::opt_ty_dv(t),
                self.env(),
                scopes_dv(scopes@),
            ),
        decreases t, 1int,
    {
        match t {
            Option::Some(t0) => Option::Some(self.process_ty(t0, scopes)),
            Option::None => Option::None,
        }
    }

    pub fn process_type_param(&self, t: TypeParam, scopes: &Vec<Vec<ScopeEntry>>) -> (r:
        TypeParam)
        ensures
            crate::ast::typaram_dv(r) == spec_rw_typaram(
                crate::ast::typaram_dv(t),
                self.env(),
                scopes_dv(scopes@),
            ),
        decreases t, 3int,
    {
        let TypeParam { ident, bounds } = t;
        TypeParam { ident: self.process_ident(ident), bounds: self.process_paths(bounds, scopes) }
    }

    pub fn process_type_params(&self, mut v: Vec<TypeParam>, scopes: &Vec<Vec<ScopeEntry>>) -> (r:
        Vec<TypeParam>)
        ensures
            crate::ast::typarams_dv(r@) == spec_rw_typarams(
                crate::ast::typarams_dv(v@),
                self.env(),
                scopes_dv(scopes@),
            ),
        decreases v@, 4int,
    {
        proof {
            if v@.len() > 0 {
                assert(crate::ast::typarams_dv(v@.drop_last()).push(
                    crate::ast::typaram_dv(v@.last()),
                ).drop_last() =~= crate::ast::typarams_dv(v@.drop_last()));
            }
        }
        if v.len() == 0 {
            v
        } else {
            let last = v.pop().unwrap();
            let mut prev = self.process_type_params(v, scopes);
            let last2 = self.process_type_param(last, scopes);
            let ghost pp = prev@;
            prev.push(last2);
            proof {
                assert(prev@.drop_last() =~= pp);
                assert(prev@.last() == last2);
            }
            prev
        }
    }

    pub fn process_pred(&self, p: WherePred, scopes: &Vec<Vec<ScopeEntry>>) -> (r: WherePred)
        ensures
            crate::ast::pred_dv(r) == spec_rw_pred(
                crate::ast::pred_dv(p),
                self.env(),
                scopes_dv(scopes@),
            ),
        decreases p, 3int,
    {
        let WherePred { bounded, bounds } = p;
        WherePred {
            bounded: self.process_ty(bounded, scopes),
            bounds: self.process_paths(bounds, scopes),
        }
    }

    pub fn process_preds(&self, mut v: Vec<WherePred>, scopes: &Vec<Vec<ScopeEntry>>) -> (r: Vec<
        WherePred,
    >)
        ensures
            crate::ast::preds_dv(r@) == spec_rw_preds(
                crate::ast::preds_dv(v@),
                self.env(),
                scopes_dv(scopes@),
            ),
        decreases v@, 4int,
    {
        proof {
            if v@.len() > 0 {
                assert(crate::ast::preds_dv(v@.drop_last()).push(crate::ast::pred_dv(v@.last()))
                    .drop_last() =~= crate::ast::preds_dv(v@.drop_last()));
            }
        }
        if v.len() == 0 {
            v
        } else {
            let last = v.pop().unwrap();
            let mut prev = self.process_preds(v, scopes);
            let last2 = self.process_pred(last, scopes);
            let ghost pp = prev@;
            prev.push(last2);
            proof {
                assert(prev@.drop_last() =~= pp);
                assert(prev@.last() == last2);
            }
            prev
        }
    }

    pub fn process_fnarg(&self, a: FnArg, scopes: &Vec<Vec<ScopeEntry>>) -> (r: FnArg)
        ensures
            crate::ast::fnarg_dv(r) == spec_rw_fnarg(
                crate::ast::fnarg_dv(a),
                self.env(),
                scopes_dv(scopes@),
            ),
        decreases a, 1int,
    {
        let FnArg { name, ty } = a;
        FnArg { name: self.process_ident(name), ty: self.process_ty(ty, scopes) }
    }

    pub fn process_fnargs(&self, mut v: Vec<FnArg>, scopes: &Vec<Vec<ScopeEntry>>) -> (r: Vec<
        FnArg,
    >)
        ensures
            crate::ast::fnargs_dv(r@) == spec_rw_fnargs(
                crate::ast::fnargs_dv(v@),
                self.env(),
                scopes_dv(scopes@),
            ),
        decreases v@, 2int,
    {
        proof {
            if v@.len() > 0 {
                assert(crate::ast::fnargs_dv(v@.drop_last()).push(
                    crate::ast::fnarg_dv(v@.last()),
                ).drop_last() =~= crate::ast::fnargs_dv(v@.drop_last()));
            }
        }
        if v.len() == 0 {
            v
        } else {
            let last = v.pop().unwrap();
            let mut prev = self.process_fnargs(v, scopes);
            let last2 = self.process_fnarg(last, scopes);
            let ghost pp = prev@;
            prev.push(last2);
            proof {
                assert(prev@.drop_last() =~= pp);
                assert(prev@.last() == last2);
            }
            prev
        }
    }
}

} // verus!

verus! {

// ---------------------------------------------------------------------------
// Executable attribute pipeline.
// ---------------------------------------------------------------------------

impl AsyncAwaitVisitor {
    /// Resolve one conditional directive attribute to a terminal marker.
    pub fn process_attribute_if(&self, a: Attr, negated: bool) -> (r: Result<
        Attr,
        crate::params::MacError,
    >)
        requires
            a.path@.len() == 2,
        ensures
            res_attr_dv(r) == spec_attr_if(crate::ast::attr_dv(a), self.env(), negated),
    {
        proof {
            crate::ast::lemma_strings_dv(a.path@);
            crate::ast::lemma_metas_dv(a.args@);
        }
        let directive = crate::ast::clone_string(&a.path[1]);
        if a.args.len() == 0 {
            return Result::Err(crate::params::MacError::DirectiveArity(directive));
        }
        if a.args.len() > 1 {
            return Result::Err(crate::params::MacError::DirectiveArity(directive));
        }
        let key: String = match &a.args[0] {
            Meta::Str(s) => crate::ast::clone_string(s),
            Meta::Word(w) => crate::ast::clone_string(w),
            Meta::NameValue(n, v) => {
                if crate::ast::is_word(n, "key") {
                    crate::ast::clone_string(v)
                } else {
                    return Result::Err(crate::params::MacError::DirectiveArg(directive));
                }
            },
            Meta::List(_, _) => {
                return Result::Err(crate::params::MacError::DirectiveArg(directive));
            },
        };
        let success: bool = match self.params.key_get() {
            Option::Some(ck) => crate::ast::string_eq(ck, &key) != negated,
            Option::None => false,
        };
        let new_name: &str = if success {
            "noop"
        } else {
            "remove"
        };
        let mut path: Vec<String> = Vec::new();
        path.push(crate::ast::clone_string(&self.params.prefix));
        path.push(String::from_str(new_name));
        let r = Attr { path, args: a.args };
        proof {
            crate::ast::lemma_strings_dv(r.path@);
            assert(crate::ast::strings_dv(r.path@) =~= seq![self.env().prefix, new_name@]);
        }
        Result::Ok(r)
    }

    /// Resolve one attribute: conditional directives of this system's own
    /// set become terminal markers, everything else passes through.
    fn process_one_attr(&self, a: Attr) -> (r: Result<Attr, crate::params::MacError>)
        ensures
            res_attr_dv(r) == spec_resolve_attr(crate::ast::attr_dv(a), self.env()),
    {
        proof {
            crate::ast::lemma_strings_dv(a.path@);
        }
        if a.path.len() == 2 && crate::ast::string_eq(&a.path[0], &self.params.prefix) {
            if crate::ast::is_word(&a.path[1], "only_if") {
                self.process_attribute_if(a, false)
            } else if crate::ast::is_word(&a.path[1], "remove_if") {
                self.process_attribute_if(a, true)
            } else {
                Result::Ok(a)
            }
        } else {
            Result::Ok(a)
        }
    }

    fn resolve_attrs(&self, mut v: Vec<Attr>) -> (r: Result<Vec<Attr>, crate::params::MacError>)
        ensures
            res_attrs_dv(r) == spec_resolve_attrs(crate::ast::attrs_dv(v@), self.env()),
        decreases v@.len(),
    {
        if v.len() == 0 {
            Result::Ok(v)
        } else {
            proof {
                assert(crate::ast::attrs_dv(v@).drop_last() =~= crate::ast::attrs_dv(
                    v@.drop_last(),
                ));
                assert(crate::ast::attrs_dv(v@).last() == crate::ast::attr_dv(v@.last()));
            }
            let last = v.pop().unwrap();
            let mut prev = match self.resolve_attrs(v) {
                Result::Ok(p) => p,
                Result::Err(e) => {
                    return Result::Err(e);
                },
            };
            let last2 = match self.process_one_attr(last) {
                Result::Ok(x) => x,
                Result::Err(e) => {
                    return Result::Err(e);
                },
            };
            let ghost pp = prev@;
            prev.push(last2);
            proof {
                assert(prev@.drop_last() =~= pp);
                assert(prev@.last() == last2);
            }
            Result::Ok(prev)
        }
    }

    fn drop_attrs_apply(&self, mut v: Vec<Attr>) -> (r: Vec<Attr>)
        ensures
            crate::ast::attrs_dv(r@) == spec_drop_attrs(
                crate::ast::attrs_dv(v@),
                self.env().drop_attrs_list,
            ),
        decreases v@.len(),
    {
        if v.len() == 0 {
            v
        } else {
            proof {
                assert(crate::ast::attrs_dv(v@).drop_last() =~= crate::ast::attrs_dv(
                    v@.drop_last(),
                ));
                assert(crate::ast::attrs_dv(v@).last() == crate::ast::attr_dv(v@.last()));
            }
            let last = v.pop().unwrap();
            proof {
                crate::ast::lemma_strings_dv(last.path@);
            }
            let mut prev = self.drop_attrs_apply(v);
            let dropped = last.path.len() == 1 && self.params.drop_attrs_contains(&last.path[0]);
            if dropped {
                prev
            } else {
                let ghost pp = prev@;
                prev.push(last);
                proof {
                    assert(prev@.drop_last() =~= pp);
                    assert(prev@.last() == last);
                }
                prev
            }
        }
    }

    fn replace_meta(&self, m: Meta) -> (r: Meta)
        ensures
            crate::ast::meta_dv(r) == spec_replace_meta(
                crate::ast::meta_dv(m),
                self.env().replace_features,
            ),
        decreases m,
    {
        match m {
            Meta::NameValue(n, v) => {
                if crate::ast::is_word(&n, "feature") {
                    match self.params.replace_features_get(&v) {
                        Option::Some(nv) => {
                            let nv2 = crate::ast::clone_string(nv);
                            Meta::NameValue(n, nv2)
                        },
                        Option::None => Meta::NameValue(n, v),
                    }
                } else {
                    Meta::NameValue(n, v)
                }
            },
            Meta::List(n, args) => Meta::List(n, self.replace_metas(args)),
            Meta::Word(w) => Meta::Word(w),
            Meta::Str(s) => Meta::Str(s),
        }
    }

    fn replace_metas(&self, mut v: Vec<Meta>) -> (r: Vec<Meta>)
        ensures
            crate::ast::metas_dv(r@) == spec_replace_metas(
                crate::ast::metas_dv(v@),
                self.env().replace_features,
            ),
        decreases v@,
    {
        if v.len() == 0 {
            v
        } else {
            proof {
                assert(crate::ast::metas_dv(v@).drop_last() =~= crate::ast::metas_dv(
                    v@.drop_last(),
                ));
                assert(crate::ast::metas_dv(v@).last() == crate::ast::meta_dv(v@.last()));
            }
            let last = v.pop().unwrap();
            let mut prev = self.replace_metas(v);
            let last2 = self.replace_meta(last);
            let ghost pp = prev@;
            prev.push(last2);
            proof {
                assert(prev@.drop_last() =~= pp);
                assert(prev@.last() == last2);
            }
            prev
        }
    }

    fn replace_attrs_apply(&self, mut v: Vec<Attr>) -> (r: Vec<Attr>)
        ensures
            crate::ast::attrs_dv(r@) == spec_replace_attrs(
                crate::ast::attrs_dv(v@),
                self.env().replace_features,
            ),
        decreases v@.len(),
    {
        if v.len() == 0 {
            v
        } else {
            proof {
                assert(crate::ast::attrs_dv(v@).drop_last() =~= crate::ast::attrs_dv(
                    v@.drop_last(),
                ));
                assert(crate::ast::attrs_dv(v@).last() == crate::ast::attr_dv(v@.last()));
            }
            let last = v.pop().unwrap();
            proof {
                crate::ast::lemma_strings_dv(last.path@);
            }
            let mut prev = self.replace_attrs_apply(v);
            let is_cfg = last.path.len() == 1 && crate::ast::is_word(&last.path[0], "cfg");
            let last2 = if is_cfg {
                let Attr { path, args } = last;
                Attr { path, args: self.replace_metas(args) }
            } else {
                last
            };
            let ghost pp = prev@;
            prev.push(last2);
            proof {
                assert(prev@.drop_last() =~= pp);
                assert(prev@.last() == last2);
            }
            prev
        }
    }

    /// The whole attribute pipeline of one node.
    pub fn process_attrs(&self, attrs: Vec<Attr>) -> (r: Result<
        Vec<Attr>,
        crate::params::MacError,
    >)
        ensures
            res_attrs_dv(r) == spec_process_attrs(crate::ast::attrs_dv(attrs@), self.env()),
    {
        let docs = crate::docfilter::process_doc_attrs(&attrs, &self.params.key);
        let resolved = match self.resolve_attrs(docs) {
            Result::Ok(x) => x,
            Result::Err(e) => {
                return Result::Err(e);
            },
        };
        let dropped = self.drop_attrs_apply(resolved);
        Result::Ok(self.replace_attrs_apply(dropped))
    }
}

} // verus!

verus! {

// ---------------------------------------------------------------------------
// Executable generic-bound collection and filtering.
// ---------------------------------------------------------------------------

/// The concrete segment of a suspension-producing bound, if this bound has
/// that shape.
pub fn search_future_trait_bound(p: &Path) -> (r: Option<PathSeg>)
    ensures
        match r {
            Option::Some(seg) => spec_future_bound(crate::ast::path_dv(*p)) == Option::Some(
                crate::ast::seg_dv(seg),
            ),
            Option::None => spec_future_bound(crate::ast::path_dv(*p)) is None,
        },
{
    proof {
        crate::ast::lemma_segs_dv(p.segments@);
    }
    if p.segments.len() == 0 {
        return Option::None;
    }
    let last = &p.segments[p.segments.len() - 1];
    proof {
        crate::ast::lemma_genargs_dv(last.args@);
    }
    if crate::ast::is_word(&last.ident, "Future") && last.args.len() >= 1 {
        match &last.args[0] {
            GenArg::Binding(_, t) => match t {
                Ty::Path(tp) => {
                    proof {
                        crate::ast::lemma_segs_dv(tp.segments@);
                    }
                    if tp.segments.len() >= 1 {
                        Option::Some(crate::ast::clone_seg(&tp.segments[0]))
                    } else {
                        Option::None
                    }
                },
                Ty::Opaque(_) => Option::None,
            },
            GenArg::Ty(_) => Option::None,
        }
    } else {
        Option::None
    }
}

fn gens_from_bounds_upto(name: &String, bounds: &Vec<Path>, n: usize) -> (r: Vec<ScopeEntry>)
    requires
        n <= bounds@.len(),
    ensures
        entries_dv(r@) == spec_gens_from_bounds(
            name@,
            crate::ast::paths_dv(bounds@.take(n as int)),
        ),
    decreases n,
{
    if n == 0 {
        proof {
            assert(bounds@.take(0) =~= Seq::<Path>::empty());
        }
        Vec::new()
    } else {
        proof {
            crate::ast::lemma_paths_dv(bounds@.take(n as int));
            crate::ast::lemma_paths_dv(bounds@.take(n as int - 1));
            assert(crate::ast::paths_dv(bounds@.take(n as int)).drop_last()
                =~= crate::ast::paths_dv(bounds@.take(n as int - 1)));
        }
        let mut prev = gens_from_bounds_upto(name, bounds, n - 1);
        match search_future_trait_bound(&bounds[n - 1]) {
            Option::Some(seg) => {
                let e = ScopeEntry { name: crate::ast::clone_string(name), seg };
                let ghost pp = prev@;
                prev.push(e);
                proof {
                    assert(prev@.drop_last() =~= pp);
                    assert(prev@.last() == e);
                    assert(entries_dv(prev@) =~= entries_dv(pp) + seq![entry_dv(e)]);
                }
                prev
            },
            Option::None => {
                proof {
                    assert(entries_dv(prev@) + Seq::<SpecScopeEntry>::empty() =~= entries_dv(
                        prev@,
                    ));
                }
                prev
            },
        }
    }
}

fn gens_from_params_upto(params: &Vec<TypeParam>, n: usize) -> (r: Vec<ScopeEntry>)
    requires
        n <= params@.len(),
    ensures
        entries_dv(r@) == spec_gens_from_params(crate::ast::typarams_dv(params@.take(n as int))),
    decreases n,
{
    if n == 0 {
        proof {
            assert(params@.take(0) =~= Seq::<TypeParam>::empty());
        }
        Vec::new()
    } else {
        proof {
            crate::ast::lemma_typarams_dv(params@.take(n as int));
            crate::ast::lemma_typarams_dv(params@.take(n as int - 1));
            assert(crate::ast::typarams_dv(params@.take(n as int)).drop_last()
                =~= crate::ast::typarams_dv(params@.take(n as int - 1)));
        }
        let mut prev = gens_from_params_upto(params, n - 1);
        let tp = &params[n - 1];
        proof {
            assert(tp.bounds@.take(tp.bounds@.len() as int) =~= tp.bounds@);
        }
        let mut more = gens_from_bounds_upto(&tp.ident, &tp.bounds, tp.bounds.len());
        let ghost pp = prev@;
        let ghost mm = more@;
        prev.append(&mut more);
        proof {
            lemma_entries_dv(prev@);
            lemma_entries_dv(pp);
            lemma_entries_dv(mm);
            assert(entries_dv(prev@) =~= entries_dv(pp) + entries_dv(mm));
        }
        prev
    }
}

fn gens_from_preds_upto(preds: &Vec<WherePred>, n: usize) -> (r: Result<
    Vec<ScopeEntry>,
    crate::params::MacError,
>)
    requires
        n <= preds@.len(),
    ensures
        (match r {
            Result::Ok(v) => spec_gens_from_preds(crate::ast::preds_dv(preds@.take(n as int)))
                == Result::<Seq<SpecScopeEntry>, SpecMacError>::Ok(entries_dv(v@)),
            Result::Err(e) => spec_gens_from_preds(crate::ast::preds_dv(preds@.take(n as int)))
                == Result::<Seq<SpecScopeEntry>, SpecMacError>::Err(crate::params::err_dv(e)),
        }),
    decreases n,
{
    if n == 0 {
        proof {
            assert(preds@.take(0) =~= Seq::<WherePred>::empty());
        }
        Result::Ok(Vec::new())
    } else {
        proof {
            crate::ast::lemma_preds_dv(preds@.take(n as int));
            crate::ast::lemma_preds_dv(preds@.take(n as int - 1));
            assert(crate::ast::preds_dv(preds@.take(n as int)).drop_last()
                =~= crate::ast::preds_dv(preds@.take(n as int - 1)));
        }
        let mut prev = match gens_from_preds_upto(preds, n - 1) {
            Result::Ok(v) => v,
            Result::Err(e) => {
                return Result::Err(e);
            },
        };
        let pred = &preds[n - 1];
        match &pred.bounded {
            Ty::Opaque(s) => Result::Err(
                crate::params::MacError::UnexpectedBound(crate::ast::clone_string(s)),
            ),
            Ty::Path(bp) => {
                proof {
                    crate::ast::lemma_segs_dv(bp.segments@);
                }
                if bp.segments.len() == 0 {
                    Result::Err(crate::params::MacError::UnexpectedBound(String::new()))
                } else {
                    proof {
                        assert(pred.bounds@.take(pred.bounds@.len() as int) =~= pred.bounds@);
                    }
                    let mut more = gens_from_bounds_upto(
                        &bp.segments[0].ident,
                        &pred.bounds,
                        pred.bounds.len(),
                    );
                    let ghost pp = prev@;
                    let ghost mm = more@;
                    prev.append(&mut more);
                    proof {
                        lemma_entries_dv(prev@);
                        lemma_entries_dv(pp);
                        lemma_entries_dv(mm);
                        assert(entries_dv(prev@) =~= entries_dv(pp) + entries_dv(mm));
                    }
                    Result::Ok(prev)
                }
            },
        }
    }
}

/// The generic binding scope of one function declaration.
fn collect_gens(g: &Generics) -> (r: Result<Vec<ScopeEntry>, crate::params::MacError>)
    ensures
        (match r {
            Result::Ok(v) => spec_collect_gens(crate::ast::generics_dv(*g))
                == Result::<Seq<SpecScopeEntry>, SpecMacError>::Ok(entries_dv(v@)),
            Result::Err(e) => spec_collect_gens(crate::ast::generics_dv(*g))
                == Result::<Seq<SpecScopeEntry>, SpecMacError>::Err(crate::params::err_dv(e)),
        }),
{
    proof {
        assert(g.params@.take(g.params@.len() as int) =~= g.params@);
        assert(g.preds@.take(g.preds@.len() as int) =~= g.preds@);
    }
    let mut from_params = gens_from_params_upto(&g.params, g.params.len());
    let mut from_preds = match gens_from_preds_upto(&g.preds, g.preds.len()) {
        Result::Ok(v) => v,
        Result::Err(e) => {
            return Result::Err(e);
        },
    };
    let ghost pp = from_params@;
    let ghost mm = from_preds@;
    from_params.append(&mut from_preds);
    proof {
        lemma_entries_dv(from_params@);
        lemma_entries_dv(pp);
        lemma_entries_dv(mm);
        assert(entries_dv(from_params@) =~= entries_dv(pp) + entries_dv(mm));
    }
    Result::Ok(from_params)
}

impl AsyncAwaitVisitor {
    fn filter_type_params(&self, mut v: Vec<TypeParam>, scopes: &Vec<Vec<ScopeEntry>>) -> (r: Vec<
        TypeParam,
    >)
        ensures
            crate::ast::typarams_dv(r@) == spec_filter_params(
                crate::ast::typarams_dv(v@),
                scopes_dv(scopes@),
            ),
        decreases v@.len(),
    {
        if v.len() == 0 {
            v
        } else {
            proof {
                assert(crate::ast::typarams_dv(v@).drop_last() =~= crate::ast::typarams_dv(
                    v@.drop_last(),
                ));
                assert(crate::ast::typarams_dv(v@).last() == crate::ast::typaram_dv(v@.last()));
            }
            let last = v.pop().unwrap();
            let mut prev = self.filter_type_params(v, scopes);
            if self.generics_get(scopes, &last.ident).is_some() {
                prev
            } else {
                let ghost pp = prev@;
                prev.push(last);
                proof {
                    assert(prev@.drop_last() =~= pp);
                    assert(prev@.last() == last);
                }
                prev
            }
        }
    }

    fn filter_where_preds(&self, mut v: Vec<WherePred>, scopes: &Vec<Vec<ScopeEntry>>) -> (r: Vec<
        WherePred,
    >)
        ensures
            crate::ast::preds_dv(r@) == spec_filter_preds(
                crate::ast::preds_dv(v@),
                scopes_dv(scopes@),
            ),
        decreases v@.len(),
    {
        if v.len() == 0 {
            v
        } else {
            proof {
                assert(crate::ast::preds_dv(v@).drop_last() =~= crate::ast::preds_dv(
                    v@.drop_last(),
                ));
                assert(crate::ast::preds_dv(v@).last() == crate::ast::pred_dv(v@.last()));
            }
            let last = v.pop().unwrap();
            let named: bool = match &last.bounded {
                Ty::Path(bp) => {
                    proof {
                        crate::ast::lemma_segs_dv(bp.segments@);
                    }
                    bp.segments.len() > 0 && self.generics_get(
                        scopes,
                        &bp.segments[0].ident,
                    ).is_some()
                },
                Ty::Opaque(_) => false,
            };
            let mut prev = self.filter_where_preds(v, scopes);
            if named {
                prev
            } else {
                let ghost pp = prev@;
                prev.push(last);
                proof {
                    assert(prev@.drop_last() =~= pp);
                    assert(prev@.last() == last);
                }
                prev
            }
        }
    }
}

} // verus!

verus! {

// ---------------------------------------------------------------------------
// Executable expression, statement and item rewriting.
// ---------------------------------------------------------------------------

/// Copy one generic binding scope.
fn clone_entries(v: &Vec<ScopeEntry>) -> (r: Vec<ScopeEntry>)
    ensures
        entries_dv(r@) == entries_dv(v@),
{
    let mut r: Vec<ScopeEntry> = Vec::new();
    let mut i: usize = 0;
    while i < v.len()
        invariant
            0 <= i <= v.len(),
            r@.len() == i,
            forall|j: int| 0 <= j < i ==> entry_dv(r@[j]) == entry_dv(v@[j]),
        decreases v@.len() - i,
    {
        let e = ScopeEntry {
            name: crate::ast::clone_string(&v[i].name),
            seg: crate::ast::clone_seg(&v[i].seg),
        };
        r.push(e);
        i = i + 1;
    }
    proof {
        lemma_entries_dv(r@);
        lemma_entries_dv(v@);
        assert(entries_dv(r@) =~= entries_dv(v@));
    }
    r
}

/// Copy the scope stack, so that one function's traversal can extend it
/// without touching its siblings' view of it.
fn clone_scopes(v: &Vec<Vec<ScopeEntry>>) -> (r: Vec<Vec<ScopeEntry>>)
    ensures
        scopes_dv(r@) == scopes_dv(v@),
{
    let mut r: Vec<Vec<ScopeEntry>> = Vec::new();
    let mut i: usize = 0;
    while i < v.len()
        invariant
            0 <= i <= v.len(),
            r@.len() == i,
            forall|j: int| 0 <= j < i ==> entries_dv(r@[j]@) == entries_dv(v@[j]@),
        decreases v@.len() - i,
    {
        let sc = clone_entries(&v[i]);
        r.push(sc);
        i = i + 1;
    }
    proof {
        lemma_scopes_dv(r@);
        lemma_scopes_dv(v@);
        assert(scopes_dv(r@) =~= scopes_dv(v@));
    }
    r
}

impl AsyncAwaitVisitor {
    fn strip_async_flag(&self, is_async: bool) -> (r: bool)
        ensures
            r == spec_strip_async(is_async, self.env()),
    {
        if self.params.mode == ConvertMode::IntoSync && self.params.recursive_asyncness_removal {
            false
        } else {
            is_async
        }
    }

    #[verifier::rlimit(60)]
    pub fn process_expr(&self, e: Expr, scopes: &Vec<Vec<ScopeEntry>>) -> (r: Result<
        Expr,
        crate::params::MacError,
    >)
        ensures
            (match r {
                Result::Ok(v) => spec_rw_expr(crate::ast::expr_dv(e), self.env(), scopes_dv(scopes@))
                    == Result::<SpecExpr, SpecMacError>::Ok(crate::ast::expr_dv(v)),
                Result::Err(er) => spec_rw_expr(
                    crate::ast::expr_dv(e),
                    self.env(),
                    scopes_dv(scopes@),
                ) == Result::<SpecExpr, SpecMacError>::Err(crate::params::err_dv(er)),
            }),
        decreases e, 0int,
    {
        match e {
            Expr::Path(p) => Result::Ok(Expr::Path(self.process_path(p, scopes))),
            Expr::Lit(s) => Result::Ok(Expr::Lit(s)),
            Expr::Call(f, args) => {
                let f2 = match self.process_expr(*f, scopes) {
                    Result::Ok(x) => x,
                    Result::Err(er) => {
                        return Result::Err(er);
                    },
                };
                let a2 = match self.process_exprs(args, scopes) {
                    Result::Ok(x) => x,
                    Result::Err(er) => {
                        return Result::Err(er);
                    },
                };
                Result::Ok(Expr::Call(Box::new(f2), a2))
            },
            Expr::Await(inner) => {
                let i2 = match self.process_expr(*inner, scopes) {
                    Result::Ok(x) => x,
                    Result::Err(er) => {
                        return Result::Err(er);
                    },
                };
                if self.params.mode == ConvertMode::IntoSync {
                    Result::Ok(i2)
                } else {
                    Result::Ok(Expr::Await(Box::new(i2)))
                }
            },
            Expr::Async(b) => {
                let b2 = match self.process_block(b, scopes) {
                    Result::Ok(x) => x,
                    Result::Err(er) => {
                        return Result::Err(er);
                    },
                };
                let ghost b2s = crate::ast::block_dv(b2);
                if self.params.mode == ConvertMode::IntoSync {
                    proof {
                        crate::ast::lemma_stmts_dv(b2.stmts@);
                    }
                    let collapse = b2.stmts.len() == 1 && (match &b2.stmts[0] {
                        Stmt::Expr(_) => true,
                        _ => false,
                    });
                    if collapse {
                        let mut ss = b2.stmts;
                        let st = ss.pop().unwrap();
                        match st {
                            Stmt::Expr(e0) => {
                                proof {
                                    assert(b2s.stmts[0] is Expr);
                                    assert(b2s.stmts[0]->Expr_0 == crate::ast::expr_dv(e0));
                                }
                                Result::Ok(e0)
                            },
                            other => {
                                proof {
                                    assert(false);
                                }
                                Result::Ok(Expr::Block(Block { stmts: ss }))
                            },
                        }
                    } else {
                        Result::Ok(Expr::Block(b2))
                    }
                } else {
                    Result::Ok(Expr::Async(b2))
                }
            },
            Expr::Block(b) => {
                let b2 = match self.process_block(b, scopes) {
                    Result::Ok(x) => x,
                    Result::Err(er) => {
                        return Result::Err(er);
                    },
                };
                Result::Ok(Expr::Block(b2))
            },
            Expr::MacroCall(p, margs) => self.process_macro(p, margs, scopes),
        }
    }

    /// A macro invocation: arguments of the recognized diagnostic macros are
    /// rewritten as an expression list; other invocations pass through.
    pub fn process_macro(&self, p: Path, margs: MacArgs, scopes: &Vec<Vec<ScopeEntry>>) -> (r:
        Result<Expr, crate::params::MacError>)
        ensures
            (match r {
                Result::Ok(v) => spec_rw_expr(
                    SpecExpr::MacroCall(crate::ast::path_dv(p), crate::ast::macargs_dv(margs)),
                    self.env(),
                    scopes_dv(scopes@),
                ) == Result::<SpecExpr, SpecMacError>::Ok(crate::ast::expr_dv(v)),
                Result::Err(er) => spec_rw_expr(
                    SpecExpr::MacroCall(crate::ast::path_dv(p), crate::ast::macargs_dv(margs)),
                    self.env(),
                    scopes_dv(scopes@),
                ) == Result::<SpecExpr, SpecMacError>::Err(crate::params::err_dv(er)),
            }),
        decreases margs, 1int,
    {
        let ghost sp = crate::ast::path_dv(p);
        proof {
            crate::ast::lemma_segs_dv(p.segments@);
            if p.segments@.len() == 1 {
                crate::ast::lemma_genargs_dv(p.segments@[0].args@);
            }
        }
        let standard = p.segments.len() == 1 && p.segments[0].args.len() == 0
            && crate::params::is_standard_macro(&p.segments[0].ident);
        proof {
            assert(standard == (sp.segments.len() == 1 && sp.segments[0].args.len() == 0
                && spec_is_standard_macro(sp.segments[0].ident)));
        }
        let ghost sm = crate::ast::macargs_dv(margs);
        if standard {
            match margs {
                MacArgs::Exprs(es) => {
                    let ghost es0 = es@;
                    proof {
                        assert(sm == SpecMacArgs::Exprs(crate::ast::exprs_dv(es0)));
                    }
                    let es2 = match self.process_exprs(es, scopes) {
                        Result::Ok(x) => x,
                        Result::Err(er) => {
                            return Result::Err(er);
                        },
                    };
                    let p2 = self.process_path(p, scopes);
                    let out = Expr::MacroCall(p2, MacArgs::Exprs(es2));
                    proof {
                        assert(crate::ast::path_dv(out->MacroCall_0) == spec_rw_path(
                            sp,
                            self.env(),
                            scopes_dv(scopes@),
                        ));
                        assert(out->MacroCall_1 == MacArgs::Exprs(es2));
                        assert(crate::ast::macargs_dv(out->MacroCall_1) == SpecMacArgs::Exprs(
                            crate::ast::exprs_dv(es2@),
                        ));
                        assert(crate::ast::expr_dv(out) == SpecExpr::MacroCall(
                            crate::ast::path_dv(out->MacroCall_0),
                            crate::ast::macargs_dv(out->MacroCall_1),
                        ));
                        assert(crate::ast::expr_dv(out) == SpecExpr::MacroCall(
                            spec_rw_path(sp, self.env(), scopes_dv(scopes@)),
                            SpecMacArgs::Exprs(crate::ast::exprs_dv(es2@)),
                        ));
                        assert(spec_rw_expr(
                            SpecExpr::MacroCall(sp, sm),
                            self.env(),
                            scopes_dv(scopes@),
                        ) == Result::<SpecExpr, SpecMacError>::Ok(crate::ast::expr_dv(out)));
                    }
                    Result::Ok(out)
                },
                MacArgs::Raw(s) => Result::Err(crate::params::MacError::MacroArgs(s)),
            }
        } else {
            let p2 = self.process_path(p, scopes);
            let out = Expr::MacroCall(p2, margs);
            proof {
                assert(crate::ast::expr_dv(out) == SpecExpr::MacroCall(
                    spec_rw_path(sp, self.env(), scopes_dv(scopes@)),
                    sm,
                ));
                assert(spec_rw_expr(SpecExpr::MacroCall(sp, sm), self.env(), scopes_dv(scopes@))
                    == Result::<SpecExpr, SpecMacError>::Ok(crate::ast::expr_dv(out)));
            }
            Result::Ok(out)
        }
    }

    pub fn process_exprs(&self, mut v: Vec<Expr>, scopes: &Vec<Vec<ScopeEntry>>) -> (r: Result<
        Vec<Expr>,
        crate::params::MacError,
    >)
        ensures
            (match r {
                Result::Ok(o) => spec_rw_exprs(
                    crate::ast::exprs_dv(v@),
                    self.env(),
                    scopes_dv(scopes@),
                ) == Result::<Seq<SpecExpr>, SpecMacError>::Ok(crate::ast::exprs_dv(o@)),
                Result::Err(er) => spec_rw_exprs(
                    crate::ast::exprs_dv(v@),
                    self.env(),
                    scopes_dv(scopes@),
                ) == Result::<Seq<SpecExpr>, SpecMacError>::Err(crate::params::err_dv(er)),
            }),
        decreases v@, 1int,
    {
        if v.len() == 0 {
            Result::Ok(v)
        } else {
            proof {
                assert(crate::ast::exprs_dv(v@).drop_last() =~= crate::ast::exprs_dv(
                    v@.drop_last(),
                ));
                assert(crate::ast::exprs_dv(v@).last() == crate::ast::expr_dv(v@.last()));
            }
            let last = v.pop().unwrap();
            let mut prev = match self.process_exprs(v, scopes) {
                Result::Ok(x) => x,
                Result::Err(er) => {
                    return Result::Err(er);
                },
            };
            let last2 = match self.process_expr(last, scopes) {
                Result::Ok(x) => x,
                Result::Err(er) => {
                    return Result::Err(er);
                },
            };
            let ghost pp = prev@;
            prev.push(last2);
            proof {
                assert(prev@.drop_last() =~= pp);
                assert(prev@.last() == last2);
            }
            Result::Ok(prev)
        }
    }

    pub fn process_stmt(&self, s: Stmt, scopes: &Vec<Vec<ScopeEntry>>) -> (r: Result<
        Stmt,
        crate::params::MacError,
    >)
        ensures
            (match r {
                Result::Ok(v) => spec_rw_stmt(crate::ast::stmt_dv(s), self.env(), scopes_dv(scopes@))
                    == Result::<SpecStmt, SpecMacError>::Ok(crate::ast::stmt_dv(v)),
                Result::Err(er) => spec_rw_stmt(
                    crate::ast::stmt_dv(s),
                    self.env(),
                    scopes_dv(scopes@),
                ) == Result::<SpecStmt, SpecMacError>::Err(crate::params::err_dv(er)),
            }),
        decreases s, 0int,
    {
        match s {
            Stmt::Expr(e) => {
                let e2 = match self.process_expr(e, scopes) {
                    Result::Ok(x) => x,
                    Result::Err(er) => {
                        return Result::Err(er);
                    },
                };
                Result::Ok(Stmt::Expr(e2))
            },
            Stmt::Let(n, e) => {
                let e2 = match self.process_expr(e, scopes) {
                    Result::Ok(x) => x,
                    Result::Err(er) => {
                        return Result::Err(er);
                    },
                };
                Result::Ok(Stmt::Let(self.process_ident(n), e2))
            },
            Stmt::Item(i) => {
                let i2 = match self.process_item(*i, scopes) {
                    Result::Ok(x) => x,
                    Result::Err(er) => {
                        return Result::Err(er);
                    },
                };
                Result::Ok(Stmt::Item(Box::new(i2)))
            },
        }
    }

    pub fn process_stmts(&self, mut v: Vec<Stmt>, scopes: &Vec<Vec<ScopeEntry>>) -> (r: Result<
        Vec<Stmt>,
        crate::params::MacError,
    >)
        ensures
            (match r {
                Result::Ok(o) => spec_rw_stmts(
                    crate::ast::stmts_dv(v@),
                    self.env(),
                    scopes_dv(scopes@),
                ) == Result::<Seq<SpecStmt>, SpecMacError>::Ok(crate::ast::stmts_dv(o@)),
                Result::Err(er) => spec_rw_stmts(
                    crate::ast::stmts_dv(v@),
                    self.env(),
                    scopes_dv(scopes@),
                ) == Result::<Seq<SpecStmt>, SpecMacError>::Err(crate::params::err_dv(er)),
            }),
        decreases v@, 1int,
    {
        if v.len() == 0 {
            Result::Ok(v)
        } else {
            proof {
                assert(crate::ast::stmts_dv(v@).drop_last() =~= crate::ast::stmts_dv(
                    v@.drop_last(),
                ));
                assert(crate::ast::stmts_dv(v@).last() == crate::ast::stmt_dv(v@.last()));
            }
            let last = v.pop().unwrap();
            let mut prev = match self.process_stmts(v, scopes) {
                Result::Ok(x) => x,
                Result::Err(er) => {
                    return Result::Err(er);
                },
            };
            let last2 = match self.process_stmt(last, scopes) {
                Result::Ok(x) => x,
                Result::Err(er) => {
                    return Result::Err(er);
                },
            };
            let ghost pp = prev@;
            prev.push(last2);
            proof {
                assert(prev@.drop_last() =~= pp);
                assert(prev@.last() == last2);
            }
            Result::Ok(prev)
        }
    }

    pub fn process_block(&self, b: Block, scopes: &Vec<Vec<ScopeEntry>>) -> (r: Result<
        Block,
        crate::params::MacError,
    >)
        ensures
            (match r {
                Result::Ok(v) => spec_rw_block(
                    crate::ast::block_dv(b),
                    self.env(),
                    scopes_dv(scopes@),
                ) == Result::<SpecBlock, SpecMacError>::Ok(crate::ast::block_dv(v)),
                Result::Err(er) => spec_rw_block(
                    crate::ast::block_dv(b),
                    self.env(),
                    scopes_dv(scopes@),
                ) == Result::<SpecBlock, SpecMacError>::Err(crate::params::err_dv(er)),
            }),
        decreases b, 0int,
    {
        let Block { stmts } = b;
        let ss = match self.process_stmts(stmts, scopes) {
            Result::Ok(x) => x,
            Result::Err(er) => {
                return Result::Err(er);
            },
        };
        Result::Ok(Block { stmts: ss })
    }

    pub fn process_use_tree(&self, t: UseTree) -> (r: UseTree)
        ensures
            crate::ast::usetree_dv(r) == spec_rw_usetree(crate::ast::usetree_dv(t), self.env()),
        decreases t, 0int,
    {
        match t {
            UseTree::Prefix(n, sub) => {
                let n2 = match self.params.idents_get(&n) {
                    Option::Some(rule) => {
                        if !rule.use_mode {
                            crate::rename::ident_add_suffix(
                                rule,
                                &n,
                                self.params.mode,
                                &self.params.key,
                            )
                        } else {
                            n
                        }
                    },
                    Option::None => n,
                };
                let sub2 = self.process_use_tree(*sub);
                UseTree::Prefix(n2, Box::new(sub2))
            },
            UseTree::Name(n) => {
                match self.params.idents_get(&n) {
                    Option::Some(rule) => {
                        let renamed = crate::rename::ident_add_suffix(
                            rule,
                            &n,
                            self.params.mode,
                            &self.params.key,
                        );
                        if rule.use_mode {
                            UseTree::Rename(n, renamed)
                        } else {
                            UseTree::Name(renamed)
                        }
                    },
                    Option::None => UseTree::Name(n),
                }
            },
            UseTree::Rename(n, a) => UseTree::Rename(n, a),
            UseTree::Group(ts) => UseTree::Group(self.process_use_trees(ts)),
            UseTree::Glob => UseTree::Glob,
        }
    }

    pub fn process_use_trees(&self, mut v: Vec<UseTree>) -> (r: Vec<UseTree>)
        ensures
            crate::ast::usetrees_dv(r@) == spec_rw_usetrees(
                crate::ast::usetrees_dv(v@),
                self.env(),
            ),
        decreases v@, 1int,
    {
        if v.len() == 0 {
            v
        } else {
            proof {
                assert(crate::ast::usetrees_dv(v@).drop_last() =~= crate::ast::usetrees_dv(
                    v@.drop_last(),
                ));
                assert(crate::ast::usetrees_dv(v@).last() == crate::ast::usetree_dv(v@.last()));
            }
            let last = v.pop().unwrap();
            let mut prev = self.process_use_trees(v);
            let last2 = self.process_use_tree(last);
            let ghost pp = prev@;
            prev.push(last2);
            proof {
                assert(prev@.drop_last() =~= pp);
                assert(prev@.last() == last2);
            }
            prev
        }
    }
}

} // verus!

verus! {

impl AsyncAwaitVisitor {
    pub fn process_field(&self, f: Field, scopes: &Vec<Vec<ScopeEntry>>) -> (r: Result<
        Field,
        crate::params::MacError,
    >)
        ensures
            (match r {
                Result::Ok(v) => spec_rw_field(
                    crate::ast::field_dv(f),
                    self.env(),
                    scopes_dv(scopes@),
                ) == Result::<SpecField, SpecMacError>::Ok(crate::ast::field_dv(v)),
                Result::Err(er) => spec_rw_field(
                    crate::ast::field_dv(f),
                    self.env(),
                    scopes_dv(scopes@),
                ) == Result::<SpecField, SpecMacError>::Err(crate::params::err_dv(er)),
            }),
        decreases f, 0int,
    {
        let Field { attrs, ident, ty } = f;
        let attrs2 = match self.process_attrs(attrs) {
            Result::Ok(x) => x,
            Result::Err(er) => {
                return Result::Err(er);
            },
        };
        Result::Ok(
            Field { attrs: attrs2, ident: self.process_ident(ident), ty: self.process_ty(ty, scopes) },
        )
    }

    pub fn process_fields(&self, mut v: Vec<Field>, scopes: &Vec<Vec<ScopeEntry>>) -> (r: Result<
        Vec<Field>,
        crate::params::MacError,
    >)
        ensures
            (match r {
                Result::Ok(o) => spec_rw_fields(
                    crate::ast::fields_dv(v@),
                    self.env(),
                    scopes_dv(scopes@),
                ) == Result::<Seq<SpecField>, SpecMacError>::Ok(crate::ast::fields_dv(o@)),
                Result::Err(er) => spec_rw_fields(
                    crate::ast::fields_dv(v@),
                    self.env(),
                    scopes_dv(scopes@),
                ) == Result::<Seq<SpecField>, SpecMacError>::Err(crate::params::err_dv(er)),
            }),
        decreases v@, 1int,
    {
        if v.len() == 0 {
            Result::Ok(v)
        } else {
            proof {
                assert(crate::ast::fields_dv(v@).drop_last() =~= crate::ast::fields_dv(
                    v@.drop_last(),
                ));
                assert(crate::ast::fields_dv(v@).last() == crate::ast::field_dv(v@.last()));
            }
            let last = v.pop().unwrap();
            let mut prev = match self.process_fields(v, scopes) {
                Result::Ok(x) => x,
                Result::Err(er) => {
                    return Result::Err(er);
                },
            };
            let last2 = match self.process_field(last, scopes) {
                Result::Ok(x) => x,
                Result::Err(er) => {
                    return Result::Err(er);
                },
            };
            let ghost pp = prev@;
            prev.push(last2);
            proof {
                assert(prev@.drop_last() =~= pp);
                assert(prev@.last() == last2);
            }
            Result::Ok(prev)
        }
    }

    /// The signature pieces shared by every function-like node.
    fn process_sig(
        &self,
        sig: Signature,
        params2: Vec<TypeParam>,
        preds2: Vec<WherePred>,
        scopes: &Vec<Vec<ScopeEntry>>,
    ) -> (r: Signature)
        ensures
            crate::ast::sig_dv(r) == spec_rw_sig_parts(
                crate::ast::sig_dv(sig),
                self.env(),
                scopes_dv(scopes@),
                crate::ast::typarams_dv(params2@),
                crate::ast::preds_dv(preds2@),
            ),
    {
        let Signature { is_async, ident, generics: _, inputs, output } = sig;
        Signature {
            is_async: self.strip_async_flag(is_async),
            ident: self.process_ident(ident),
            generics: Generics {
                params: self.process_type_params(params2, scopes),
                preds: self.process_preds(preds2, scopes),
            },
            inputs: self.process_fnargs(inputs, scopes),
            output: self.process_opt_ty(output, scopes),
        }
    }

    pub fn process_method(&self, m: TraitMethod, scopes: &Vec<Vec<ScopeEntry>>) -> (r: Result<
        TraitMethod,
        crate::params::MacError,
    >)
        ensures
            (match r {
                Result::Ok(v) => spec_rw_method(
                    crate::ast::method_dv(m),
                    self.env(),
                    scopes_dv(scopes@),
                ) == Result::<SpecTraitMethod, SpecMacError>::Ok(crate::ast::method_dv(v)),
                Result::Err(er) => spec_rw_method(
                    crate::ast::method_dv(m),
                    self.env(),
                    scopes_dv(scopes@),
                ) == Result::<SpecTraitMethod, SpecMacError>::Err(crate::params::err_dv(er)),
            }),
        decreases m, 0int,
    {
        let TraitMethod { attrs, sig, body } = m;
        let attrs2 = match self.process_attrs(attrs) {
            Result::Ok(x) => x,
            Result::Err(er) => {
                return Result::Err(er);
            },
        };
        let body2 = match body {
            Option::Some(b) => {
                let b2 = match self.process_block(b, scopes) {
                    Result::Ok(x) => x,
                    Result::Err(er) => {
                        return Result::Err(er);
                    },
                };
                Option::Some(b2)
            },
            Option::None => Option::None,
        };
        let params2 = crate::ast::clone_typarams(&sig.generics.params);
        let preds2 = crate::ast::clone_preds(&sig.generics.preds);
        Result::Ok(TraitMethod { attrs: attrs2, sig: self.process_sig(sig, params2, preds2, scopes), body: body2 })
    }

    pub fn process_methods(&self, mut v: Vec<TraitMethod>, scopes: &Vec<Vec<ScopeEntry>>) -> (r:
        Result<Vec<TraitMethod>, crate::params::MacError>)
        ensures
            (match r {
                Result::Ok(o) => spec_rw_methods(
                    crate::ast::methods_dv(v@),
                    self.env(),
                    scopes_dv(scopes@),
                ) == Result::<Seq<SpecTraitMethod>, SpecMacError>::Ok(crate::ast::methods_dv(o@)),
                Result::Err(er) => spec_rw_methods(
                    crate::ast::methods_dv(v@),
                    self.env(),
                    scopes_dv(scopes@),
                ) == Result::<Seq<SpecTraitMethod>, SpecMacError>::Err(crate::params::err_dv(er)),
            }),
        decreases v@, 1int,
    {
        if v.len() == 0 {
            Result::Ok(v)
        } else {
            proof {
                assert(crate::ast::methods_dv(v@).drop_last() =~= crate::ast::methods_dv(
                    v@.drop_last(),
                ));
                assert(crate::ast::methods_dv(v@).last() == crate::ast::method_dv(v@.last()));
            }
            let last = v.pop().unwrap();
            let mut prev = match self.process_methods(v, scopes) {
                Result::Ok(x) => x,
                Result::Err(er) => {
                    return Result::Err(er);
                },
            };
            let last2 = match self.process_method(last, scopes) {
                Result::Ok(x) => x,
                Result::Err(er) => {
                    return Result::Err(er);
                },
            };
            let ghost pp = prev@;
            prev.push(last2);
            proof {
                assert(prev@.drop_last() =~= pp);
                assert(prev@.last() == last2);
            }
            Result::Ok(prev)
        }
    }

    fn process_impl_fn(&self, f: FnDef, scopes: &Vec<Vec<ScopeEntry>>) -> (r: Result<
        FnDef,
        crate::params::MacError,
    >)
        ensures
            (match r {
                Result::Ok(v) => spec_rw_impl_fn(
                    crate::ast::fndef_dv(f),
                    self.env(),
                    scopes_dv(scopes@),
                ) == Result::<SpecFnDef, SpecMacError>::Ok(crate::ast::fndef_dv(v)),
                Result::Err(er) => spec_rw_impl_fn(
                    crate::ast::fndef_dv(f),
                    self.env(),
                    scopes_dv(scopes@),
                ) == Result::<SpecFnDef, SpecMacError>::Err(crate::params::err_dv(er)),
            }),
        decreases f, 0int,
    {
        let FnDef { attrs, sig, body } = f;
        let attrs2 = match self.process_attrs(attrs) {
            Result::Ok(x) => x,
            Result::Err(er) => {
                return Result::Err(er);
            },
        };
        let body2 = match self.process_block(body, scopes) {
            Result::Ok(x) => x,
            Result::Err(er) => {
                return Result::Err(er);
            },
        };
        let params2 = crate::ast::clone_typarams(&sig.generics.params);
        let preds2 = crate::ast::clone_preds(&sig.generics.preds);
        Result::Ok(FnDef { attrs: attrs2, sig: self.process_sig(sig, params2, preds2, scopes), body: body2 })
    }

    fn process_impl_fns(&self, mut v: Vec<FnDef>, scopes: &Vec<Vec<ScopeEntry>>) -> (r: Result<
        Vec<FnDef>,
        crate::params::MacError,
    >)
        ensures
            (match r {
                Result::Ok(o) => spec_rw_impl_fns(
                    crate::ast::fndefs_dv(v@),
                    self.env(),
                    scopes_dv(scopes@),
                ) == Result::<Seq<SpecFnDef>, SpecMacError>::Ok(crate::ast::fndefs_dv(o@)),
                Result::Err(er) => spec_rw_impl_fns(
                    crate::ast::fndefs_dv(v@),
                    self.env(),
                    scopes_dv(scopes@),
                ) == Result::<Seq<SpecFnDef>, SpecMacError>::Err(crate::params::err_dv(er)),
            }),
        decreases v@, 1int,
    {
        if v.len() == 0 {
            Result::Ok(v)
        } else {
            proof {
                assert(crate::ast::fndefs_dv(v@).drop_last() =~= crate::ast::fndefs_dv(
                    v@.drop_last(),
                ));
                assert(crate::ast::fndefs_dv(v@).last() == crate::ast::fndef_dv(v@.last()));
            }
            let last = v.pop().unwrap();
            let mut prev = match self.process_impl_fns(v, scopes) {
                Result::Ok(x) => x,
                Result::Err(er) => {
                    return Result::Err(er);
                },
            };
            let last2 = match self.process_impl_fn(last, scopes) {
                Result::Ok(x) => x,
                Result::Err(er) => {
                    return Result::Err(er);
                },
            };
            let ghost pp = prev@;
            prev.push(last2);
            proof {
                assert(prev@.drop_last() =~= pp);
                assert(prev@.last() == last2);
            }
            Result::Ok(prev)
        }
    }

    /// A free function: in the blocking form, collect its suspension bounds
    /// into a fresh scope pushed for this function's traversal only.
    pub fn process_item_fn(&self, f: FnDef, scopes: &Vec<Vec<ScopeEntry>>) -> (r: Result<
        FnDef,
        crate::params::MacError,
    >)
        ensures
            (match r {
                Result::Ok(v) => spec_rw_fn(crate::ast::fndef_dv(f), self.env(), scopes_dv(scopes@))
                    == Result::<SpecFnDef, SpecMacError>::Ok(crate::ast::fndef_dv(v)),
                Result::Err(er) => spec_rw_fn(
                    crate::ast::fndef_dv(f),
                    self.env(),
                    scopes_dv(scopes@),
                ) == Result::<SpecFnDef, SpecMacError>::Err(crate::params::err_dv(er)),
            }),
        decreases f, 1int,
    {
        if self.params.mode == ConvertMode::IntoSync {
            let gens = match collect_gens(&f.sig.generics) {
                Result::Ok(x) => x,
                Result::Err(er) => {
                    return Result::Err(er);
                },
            };
            let mut scopes2 = clone_scopes(scopes);
            let ghost base = scopes2@;
            scopes2.push(gens);
            proof {
                assert(scopes2@.drop_last() =~= base);
                assert(scopes2@.last() == gens);
                assert(scopes_dv(scopes2@) =~= scopes_dv(scopes@).push(entries_dv(gens@)));
            }
            let FnDef { attrs, sig, body } = f;
            let attrs2 = match self.process_attrs(attrs) {
                Result::Ok(x) => x,
                Result::Err(er) => {
                    return Result::Err(er);
                },
            };
            let body2 = match self.process_block(body, &scopes2) {
                Result::Ok(x) => x,
                Result::Err(er) => {
                    return Result::Err(er);
                },
            };
            let params1 = crate::ast::clone_typarams(&sig.generics.params);
            let preds1 = crate::ast::clone_preds(&sig.generics.preds);
            let params2 = self.filter_type_params(params1, &scopes2);
            let preds2 = self.filter_where_preds(preds1, &scopes2);
            Result::Ok(
                FnDef { attrs: attrs2, sig: self.process_sig(sig, params2, preds2, &scopes2), body: body2 },
            )
        } else {
            self.process_impl_fn(f, scopes)
        }
    }

    #[verifier::rlimit(100)]
    pub fn process_item(&self, i: Item, scopes: &Vec<Vec<ScopeEntry>>) -> (r: Result<
        Item,
        crate::params::MacError,
    >)
        ensures
            (match r {
                Result::Ok(v) => spec_rw_item(crate::ast::item_dv(i), self.env(), scopes_dv(scopes@))
                    == Result::<SpecItem, SpecMacError>::Ok(crate::ast::item_dv(v)),
                Result::Err(er) => spec_rw_item(
                    crate::ast::item_dv(i),
                    self.env(),
                    scopes_dv(scopes@),
                ) == Result::<SpecItem, SpecMacError>::Err(crate::params::err_dv(er)),
            }),
        decreases i, 2int,
    {
        match i {
            Item::Fn(f) => {
                let f2 = match self.process_item_fn(f, scopes) {
                    Result::Ok(x) => x,
                    Result::Err(er) => {
                        return Result::Err(er);
                    },
                };
                Result::Ok(Item::Fn(f2))
            },
            Item::Struct { attrs, ident, fields } => {
                let attrs2 = match self.process_attrs(attrs) {
                    Result::Ok(x) => x,
                    Result::Err(er) => {
                        return Result::Err(er);
                    },
                };
                let fields2 = match self.process_fields(fields, scopes) {
                    Result::Ok(x) => x,
                    Result::Err(er) => {
                        return Result::Err(er);
                    },
                };
                Result::Ok(
                    Item::Struct { attrs: attrs2, ident: self.process_ident(ident), fields: fields2 },
                )
            },
            Item::Trait { attrs, ident, methods } => {
                let attrs2 = match self.process_attrs(attrs) {
                    Result::Ok(x) => x,
                    Result::Err(er) => {
                        return Result::Err(er);
                    },
                };
                let methods2 = match self.process_methods(methods, scopes) {
                    Result::Ok(x) => x,
                    Result::Err(er) => {
                        return Result::Err(er);
                    },
                };
                Result::Ok(
                    Item::Trait { attrs: attrs2, ident: self.process_ident(ident), methods: methods2 },
                )
            },
            Item::Impl { attrs, trait_path, self_ty, methods } => {
                let attrs2 = match self.process_attrs(attrs) {
                    Result::Ok(x) => x,
                    Result::Err(er) => {
                        return Result::Err(er);
                    },
                };
                let methods2 = match self.process_impl_fns(methods, scopes) {
                    Result::Ok(x) => x,
                    Result::Err(er) => {
                        return Result::Err(er);
                    },
                };
                let mut attrs3 = attrs2;
                if self.params.mode == ConvertMode::IntoAsync
                    && self.params.recursive_asyncness_removal {
                    match self.params.send_get() {
                        Option::Some(b) => {
                            let mut path: Vec<String> = Vec::new();
                            path.push(String::from_str("async_trait"));
                            path.push(String::from_str("async_trait"));
                            let mut args: Vec<Meta> = Vec::new();
                            if !b {
                                args.push(Meta::Word(String::from_str("?Send")));
                            }
                            let sa = Attr { path, args };
                            proof {
                                crate::ast::lemma_strings_dv(sa.path@);
                                crate::ast::lemma_metas_dv(sa.args@);
                                assert(crate::ast::strings_dv(sa.path@) =~= seq![
                                    "async_trait"@,
                                    "async_trait"@,
                                ]);
                                if b {
                                    assert(crate::ast::metas_dv(sa.args@)
                                        =~= Seq::<SpecMeta>::empty());
                                } else {
                                    assert(crate::ast::metas_dv(sa.args@) =~= seq![
                                        SpecMeta::Word("?Send"@),
                                    ]);
                                }
                                assert(crate::ast::attr_dv(sa) == spec_send_attr(b));
                            }
                            let ghost pre = attrs3@;
                            attrs3.push(sa);
                            proof {
                                assert(attrs3@.drop_last() =~= pre);
                                assert(attrs3@.last() == sa);
                            }
                        },
                        Option::None => {},
                    }
                }
                let trait_path2 = match trait_path {
                    Option::Some(p) => Option::Some(self.process_path(p, scopes)),
                    Option::None => Option::None,
                };
                Result::Ok(
                    Item::Impl {
                        attrs: attrs3,
                        trait_path: trait_path2,
                        self_ty: self.process_ty(self_ty, scopes),
                        methods: methods2,
                    },
                )
            },
            Item::Use { attrs, tree } => {
                let attrs2 = match self.process_attrs(attrs) {
                    Result::Ok(x) => x,
                    Result::Err(er) => {
                        return Result::Err(er);
                    },
                };
                Result::Ok(Item::Use { attrs: attrs2, tree: self.process_use_tree(tree) })
            },
            Item::Mod { attrs, ident, items } => {
                let attrs2 = match self.process_attrs(attrs) {
                    Result::Ok(x) => x,
                    Result::Err(er) => {
                        return Result::Err(er);
                    },
                };
                let items2 = match self.process_items(items, scopes) {
                    Result::Ok(x) => x,
                    Result::Err(er) => {
                        return Result::Err(er);
                    },
                };
                Result::Ok(
                    Item::Mod { attrs: attrs2, ident: self.process_ident(ident), items: items2 },
                )
            },
        }
    }

    pub fn process_items(&self, mut v: Vec<Item>, scopes: &Vec<Vec<ScopeEntry>>) -> (r: Result<
        Vec<Item>,
        crate::params::MacError,
    >)
        ensures
            (match r {
                Result::Ok(o) => spec_rw_items(
                    crate::ast::items_dv(v@),
                    self.env(),
                    scopes_dv(scopes@),
                ) == Result::<Seq<SpecItem>, SpecMacError>::Ok(crate::ast::items_dv(o@)),
                Result::Err(er) => spec_rw_items(
                    crate::ast::items_dv(v@),
                    self.env(),
                    scopes_dv(scopes@),
                ) == Result::<Seq<SpecItem>, SpecMacError>::Err(crate::params::err_dv(er)),
            }),
        decreases v@, 3int,
    {
        if v.len() == 0 {
            Result::Ok(v)
        } else {
            proof {
                assert(crate::ast::items_dv(v@).drop_last() =~= crate::ast::items_dv(
                    v@.drop_last(),
                ));
                assert(crate::ast::items_dv(v@).last() == crate::ast::item_dv(v@.last()));
            }
            let last = v.pop().unwrap();
            let mut prev = match self.process_items(v, scopes) {
                Result::Ok(x) => x,
                Result::Err(er) => {
                    return Result::Err(er);
                },
            };
            let last2 = match self.process_item(last, scopes) {
                Result::Ok(x) => x,
                Result::Err(er) => {
                    return Result::Err(er);
                },
            };
            let ghost pp = prev@;
            prev.push(last2);
            proof {
                assert(prev@.drop_last() =~= pp);
                assert(prev@.last() == last2);
            }
            Result::Ok(prev)
        }
    }
}

} // verus!
