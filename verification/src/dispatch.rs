//! The variant dispatcher: parse the declarative parameter list, and emit
//! one independently rewritten copy of the annotated declaration per
//! declared, non-disabled variant, each gated by its variant's condition.

use vstd::prelude::*;

use crate::ast::{
    Attr, Item, Meta, SpecAttr, SpecField, SpecFnDef, SpecItem, SpecMeta, SpecTraitMethod,
    attr_dv, attrs_dv, clone_attr, clone_attrs, clone_item, clone_metas, clone_string,
    clone_strings, is_word, item_dv, items_dv, lemma_attrs_dv, metas_dv, string_eq,
};
use crate::params::{
    ConvertMode, FeatureRepl, GlobalParams, IdentOverride, IdentRule, MacError, MacroParameters,
    SpecGlobalParams, SpecIdentOverride, SpecIdentRule, SpecMacError, SpecMacroParameters,
    SpecVariantSpec, VariantSpec, err_dv, global_dv, opt_string_dv, overrides_dv, params_dv,
    repls_dv, rule_dv, rules_dv, spec_idents_get, variant_dv, variants_dv,
};
use crate::rewrite::{AsyncAwaitVisitor, ScopeEntry, scopes_dv, spec_rw_item};

verus! {

// ---------------------------------------------------------------------------
// Parsing: the declarative parameter language.
// ---------------------------------------------------------------------------

pub open spec fn spec_default_variant(mode: ConvertMode, key: Seq<char>) -> SpecVariantSpec {
    SpecVariantSpec {
        mode: mode,
        key: key,
        disable: false,
        keep_self: false,
        self_name: Option::None,
        send: Option::None,
        condition: Option::None,
        idents: Seq::empty(),
        drop_attrs_list: Seq::empty(),
        replace_features: Seq::empty(),
        inner_attrs: Seq::empty(),
        outer_attrs: Seq::empty(),
        prefix: Option::None,
    }
}

pub open spec fn spec_default_global() -> SpecGlobalParams {
    SpecGlobalParams {
        disable: false,
        prefix: Option::None,
        keep_self: false,
        send: Option::None,
        idents: Seq::empty(),
        drop_attrs_list: Seq::empty(),
        replace_features: Seq::empty(),
        inner_attrs: Seq::empty(),
        outer_attrs: Seq::empty(),
        variants: Seq::empty(),
    }
}

pub open spec fn spec_default_rule(name: Seq<char>) -> SpecIdentRule {
    SpecIdentRule {
        ident: name,
        keep: false,
        use_mode: false,
        snake: false,
        overrides: Seq::empty(),
    }
}

/// The suspension-trait adapter marker values.
pub open spec fn spec_parse_send(v: Seq<char>) -> Result<Option<bool>, SpecMacError> {
    if v == "Send"@ || v == "true"@ {
        Result::Ok(Option::Some(true))
    } else if v == "?Send"@ || v == "false"@ {
        Result::Ok(Option::Some(false))
    } else if v == ""@ {
        Result::Ok(Option::None)
    } else {
        Result::Err(SpecMacError::WrongShape("send"@))
    }
}

/// One flag of an identifier rule.
pub open spec fn spec_apply_rule_flag(r: SpecIdentRule, m: Meta) -> Result<
    SpecIdentRule,
    SpecMacError,
> {
    match m {
        Meta::Word(w) => if w@ == "keep"@ {
            Result::Ok(SpecIdentRule { keep: true, ..r })
        } else if w@ == "use"@ {
            Result::Ok(SpecIdentRule { use_mode: true, ..r })
        } else if w@ == "snake"@ || w@ == "fn"@ || w@ == "mod"@ {
            Result::Ok(SpecIdentRule { snake: true, ..r })
        } else {
            Result::Ok(
                SpecIdentRule {
                    overrides: r.overrides.push(
                        SpecIdentOverride { key: w@, name: Option::None },
                    ),
                    ..r
                },
            )
        },
        Meta::NameValue(k, v) => Result::Ok(
            SpecIdentRule {
                overrides: r.overrides.push(
                    SpecIdentOverride { key: k@, name: Option::Some(v@) },
                ),
                ..r
            },
        ),
        Meta::Str(s) => Result::Err(SpecMacError::WrongShape(s@)),
        Meta::List(n, _) => Result::Err(SpecMacError::WrongShape(n@)),
    }
}

pub open spec fn spec_parse_rule_upto(name: Seq<char>, flags: Seq<Meta>, n: int) -> Result<
    SpecIdentRule,
    SpecMacError,
>
    decreases n
        when 0 <= n
{
    if n == 0 {
        Result::Ok(spec_default_rule(name))
    } else {
        match spec_parse_rule_upto(name, flags, n - 1) {
            Result::Err(e) => Result::Err(e),
            Result::Ok(r) => spec_apply_rule_flag(r, flags[n - 1]),
        }
    }
}

/// One entry of an `idents(...)` list.
pub open spec fn spec_parse_rules_entry(acc: Seq<SpecIdentRule>, m: Meta) -> Result<
    Seq<SpecIdentRule>,
    SpecMacError,
> {
    match m {
        Meta::Word(w) => Result::Ok(acc.push(spec_default_rule(w@))),
        Meta::List(w, flags) => match spec_parse_rule_upto(w@, flags@, flags@.len() as int) {
            Result::Err(e) => Result::Err(e),
            Result::Ok(r) => Result::Ok(acc.push(r)),
        },
        Meta::Str(s) => Result::Err(SpecMacError::WrongShape(s@)),
        Meta::NameValue(n, _) => Result::Err(SpecMacError::WrongShape(n@)),
    }
}

pub open spec fn spec_parse_rules_upto(args: Seq<Meta>, n: int) -> Result<
    Seq<SpecIdentRule>,
    SpecMacError,
>
    decreases n
        when 0 <= n
{
    if n == 0 {
        Result::Ok(Seq::empty())
    } else {
        match spec_parse_rules_upto(args, n - 1) {
            Result::Err(e) => Result::Err(e),
            Result::Ok(acc) => spec_parse_rules_entry(acc, args[n - 1]),
        }
    }
}

/// One extra attribute of an `outer(...)` or `inner(...)` list.
pub open spec fn spec_meta_attr(m: Meta) -> Result<SpecAttr, SpecMacError> {
    match m {
        Meta::Word(w) => Result::Ok(SpecAttr { path: seq![w@], args: Seq::empty() }),
        Meta::List(n, args) => Result::Ok(SpecAttr { path: seq![n@], args: metas_dv(args@) }),
        Meta::Str(s) => Result::Err(SpecMacError::WrongShape(s@)),
        Meta::NameValue(n, _) => Result::Err(SpecMacError::WrongShape(n@)),
    }
}

pub open spec fn spec_metas_attrs_upto(acc: Seq<SpecAttr>, args: Seq<Meta>, n: int) -> Result<
    Seq<SpecAttr>,
    SpecMacError,
>
    decreases n
        when 0 <= n
{
    if n == 0 {
        Result::Ok(acc)
    } else {
        match spec_metas_attrs_upto(acc, args, n - 1) {
            Result::Err(e) => Result::Err(e),
            Result::Ok(a) => match spec_meta_attr(args[n - 1]) {
                Result::Err(e) => Result::Err(e),
                Result::Ok(at) => Result::Ok(a.push(at)),
            },
        }
    }
}

/// The names of a `drop_attrs(...)` list: bare words only.
pub open spec fn spec_drop_names_upto(acc: Seq<Seq<char>>, args: Seq<Meta>, n: int) -> Result<
    Seq<Seq<char>>,
    SpecMacError,
>
    decreases n
        when 0 <= n
{
    if n == 0 {
        Result::Ok(acc)
    } else {
        match spec_drop_names_upto(acc, args, n - 1) {
            Result::Err(e) => Result::Err(e),
            Result::Ok(a) => match args[n - 1] {
                Meta::Word(w) => Result::Ok(a.push(w@)),
                _ => Result::Err(SpecMacError::WrongShape("drop_attrs"@)),
            },
        }
    }
}

/// A `replace_feature("old", "new")` pair.
pub open spec fn spec_repl_pair(args: Seq<Meta>) -> Result<
    crate::params::SpecFeatureRepl,
    SpecMacError,
> {
    if args.len() == 2 && args[0] is Str && args[1] is Str {
        Result::Ok(
            crate::params::SpecFeatureRepl {
                old_name: (match args[0] {
                    Meta::Str(s) => s@,
                    _ => Seq::empty(),
                }),
                new_name: (match args[1] {
                    Meta::Str(s) => s@,
                    _ => Seq::empty(),
                }),
            },
        )
    } else {
        Result::Err(SpecMacError::WrongShape("replace_feature"@))
    }
}

/// One parameter of a variant block.
pub open spec fn spec_apply_variant(v: SpecVariantSpec, m: Meta) -> Result<
    SpecVariantSpec,
    SpecMacError,
> {
    match m {
        Meta::Word(w) => if w@ == "disable"@ {
            Result::Ok(SpecVariantSpec { disable: true, ..v })
        } else if w@ == "keep_self"@ {
            Result::Ok(SpecVariantSpec { keep_self: true, ..v })
        } else {
            Result::Err(SpecMacError::UnknownParam(w@))
        },
        Meta::NameValue(n, val) => if n@ == "key"@ {
            Result::Ok(SpecVariantSpec { key: val@, ..v })
        } else if n@ == "feature"@ {
            Result::Ok(
                SpecVariantSpec {
                    condition: Option::Some(seq![SpecMeta::NameValue("feature"@, val@)]),
                    ..v
                },
            )
        } else if n@ == "self"@ {
            Result::Ok(SpecVariantSpec { self_name: Option::Some(val@), ..v })
        } else if n@ == "send"@ {
            match spec_parse_send(val@) {
                Result::Err(e) => Result::Err(e),
                Result::Ok(s) => Result::Ok(SpecVariantSpec { send: s, ..v }),
            }
        } else if n@ == "prefix"@ {
            Result::Ok(SpecVariantSpec { prefix: Option::Some(val@), ..v })
        } else {
            Result::Err(SpecMacError::UnknownParam(n@))
        },
        Meta::List(n, args) => if n@ == "cfg"@ {
            Result::Ok(SpecVariantSpec { condition: Option::Some(metas_dv(args@)), ..v })
        } else if n@ == "any"@ || n@ == "all"@ || n@ == "not"@ {
            Result::Ok(
                SpecVariantSpec {
                    condition: Option::Some(seq![SpecMeta::List(n@, metas_dv(args@))]),
                    ..v
                },
            )
        } else if n@ == "idents"@ {
            match spec_parse_rules_upto(args@, args@.len() as int) {
                Result::Err(e) => Result::Err(e),
                Result::Ok(rs) => Result::Ok(SpecVariantSpec { idents: v.idents + rs, ..v }),
            }
        } else if n@ == "drop_attrs"@ {
            match spec_drop_names_upto(v.drop_attrs_list, args@, args@.len() as int) {
                Result::Err(e) => Result::Err(e),
                Result::Ok(d) => Result::Ok(SpecVariantSpec { drop_attrs_list: d, ..v }),
            }
        } else if n@ == "replace_feature"@ {
            match spec_repl_pair(args@) {
                Result::Err(e) => Result::Err(e),
                Result::Ok(p) => Result::Ok(
                    SpecVariantSpec { replace_features: v.replace_features.push(p), ..v },
                ),
            }
        } else if n@ == "outer"@ {
            match spec_metas_attrs_upto(v.outer_attrs, args@, args@.len() as int) {
                Result::Err(e) => Result::Err(e),
                Result::Ok(a) => Result::Ok(SpecVariantSpec { outer_attrs: a, ..v }),
            }
        } else if n@ == "inner"@ {
            match spec_metas_attrs_upto(v.inner_attrs, args@, args@.len() as int) {
                Result::Err(e) => Result::Err(e),
                Result::Ok(a) => Result::Ok(SpecVariantSpec { inner_attrs: a, ..v }),
            }
        } else {
            Result::Err(SpecMacError::UnknownParam(n@))
        },
        Meta::Str(s) => Result::Err(SpecMacError::WrongShape(s@)),
    }
}

pub open spec fn spec_parse_variant_upto(
    mode: ConvertMode,
    key: Seq<char>,
    args: Seq<Meta>,
    n: int,
) -> Result<SpecVariantSpec, SpecMacError>
    decreases n
        when 0 <= n
{
    if n == 0 {
        Result::Ok(spec_default_variant(mode, key))
    } else {
        match spec_parse_variant_upto(mode, key, args, n - 1) {
            Result::Err(e) => Result::Err(e),
            Result::Ok(v) => spec_apply_variant(v, args[n - 1]),
        }
    }
}

/// One parameter of the outer level.
pub open spec fn spec_apply_global(g: SpecGlobalParams, m: Meta) -> Result<
    SpecGlobalParams,
    SpecMacError,
> {
    match m {
        Meta::Word(w) => if w@ == "disable"@ {
            Result::Ok(SpecGlobalParams { disable: true, ..g })
        } else if w@ == "keep_self"@ {
            Result::Ok(SpecGlobalParams { keep_self: true, ..g })
        } else if w@ == "sync"@ {
            Result::Ok(
                SpecGlobalParams {
                    variants: g.variants.push(
                        spec_default_variant(ConvertMode::IntoSync, "sync"@),
                    ),
                    ..g
                },
            )
        } else if w@ == "async"@ {
            Result::Ok(
                SpecGlobalParams {
                    variants: g.variants.push(
                        spec_default_variant(ConvertMode::IntoAsync, "async"@),
                    ),
                    ..g
                },
            )
        } else {
            Result::Err(SpecMacError::UnknownParam(w@))
        },
        Meta::NameValue(n, val) => if n@ == "prefix"@ {
            Result::Ok(SpecGlobalParams { prefix: Option::Some(val@), ..g })
        } else if n@ == "send"@ {
            match spec_parse_send(val@) {
                Result::Err(e) => Result::Err(e),
                Result::Ok(s) => Result::Ok(SpecGlobalParams { send: s, ..g }),
            }
        } else {
            Result::Err(SpecMacError::UnknownParam(n@))
        },
        Meta::List(n, args) => if n@ == "sync"@ || n@ == "async"@ {
            let mode = if n@ == "sync"@ {
                ConvertMode::IntoSync
            } else {
                ConvertMode::IntoAsync
            };
            match spec_parse_variant_upto(mode, n@, args@, args@.len() as int) {
                Result::Err(e) => Result::Err(e),
                Result::Ok(v) => Result::Ok(
                    SpecGlobalParams { variants: g.variants.push(v), ..g },
                ),
            }
        } else if n@ == "idents"@ {
            match spec_parse_rules_upto(args@, args@.len() as int) {
                Result::Err(e) => Result::Err(e),
                Result::Ok(rs) => Result::Ok(SpecGlobalParams { idents: g.idents + rs, ..g }),
            }
        } else if n@ == "drop_attrs"@ {
            match spec_drop_names_upto(g.drop_attrs_list, args@, args@.len() as int) {
                Result::Err(e) => Result::Err(e),
                Result::Ok(d) => Result::Ok(SpecGlobalParams { drop_attrs_list: d, ..g }),
            }
        } else if n@ == "replace_feature"@ {
            match spec_repl_pair(args@) {
                Result::Err(e) => Result::Err(e),
                Result::Ok(p) => Result::Ok(
                    SpecGlobalParams { replace_features: g.replace_features.push(p), ..g },
                ),
            }
        } else if n@ == "outer"@ {
            match spec_metas_attrs_upto(g.outer_attrs, args@, args@.len() as int) {
                Result::Err(e) => Result::Err(e),
                Result::Ok(a) => Result::Ok(SpecGlobalParams { outer_attrs: a, ..g }),
            }
        } else if n@ == "inner"@ {
            match spec_metas_attrs_upto(g.inner_attrs, args@, args@.len() as int) {
                Result::Err(e) => Result::Err(e),
                Result::Ok(a) => Result::Ok(SpecGlobalParams { inner_attrs: a, ..g }),
            }
        } else {
            Result::Err(SpecMacError::UnknownParam(n@))
        },
        Meta::Str(s) => Result::Err(SpecMacError::WrongShape(s@)),
    }
}

pub open spec fn spec_parse_global_upto(args: Seq<Meta>, n: int) -> Result<
    SpecGlobalParams,
    SpecMacError,
>
    decreases n
        when 0 <= n
{
    if n == 0 {
        Result::Ok(spec_default_global())
    } else {
        match spec_parse_global_upto(args, n - 1) {
            Result::Err(e) => Result::Err(e),
            Result::Ok(g) => spec_apply_global(g, args[n - 1]),
        }
    }
}

/// The whole parameter list of one invocation.
pub open spec fn spec_parse_global(args: Seq<Meta>) -> Result<SpecGlobalParams, SpecMacError> {
    spec_parse_global_upto(args, args.len() as int)
}

// ---------------------------------------------------------------------------
// Merging and the per-variant environment.
// ---------------------------------------------------------------------------

/// The outer settings merged with one variant's settings; variant entries
/// are appended after the outer ones, so they win under last-match lookup.
pub open spec fn spec_merge(g: SpecGlobalParams, v: SpecVariantSpec) -> SpecMacroParameters {
    SpecMacroParameters {
        mode: v.mode,
        prefix: (match v.prefix {
            Option::Some(p) => p,
            Option::None => match g.prefix {
                Option::Some(p) => p,
                Option::None => "maybe_async_cfg2"@,
            },
        }),
        key: Option::Some(v.key),
        keep_self: g.keep_self || v.keep_self,
        self_name: v.self_name,
        send: (match v.send {
            Option::Some(b) => Option::Some(b),
            Option::None => g.send,
        }),
        condition: v.condition,
        idents: g.idents + v.idents,
        drop_attrs_list: g.drop_attrs_list + v.drop_attrs_list,
        replace_features: g.replace_features + v.replace_features,
        inner_attrs: g.inner_attrs + v.inner_attrs,
        outer_attrs: g.outer_attrs + v.outer_attrs,
        recursive_asyncness_removal: true,
    }
}

/// The annotated declaration's own name and its suffix style.
pub open spec fn spec_item_name(i: SpecItem) -> Option<(Seq<char>, bool)> {
    match i {
        SpecItem::Fn(f) => Option::Some((f.sig.ident, true)),
        SpecItem::Struct { ident, .. } => Option::Some((ident, false)),
        SpecItem::Trait { ident, .. } => Option::Some((ident, false)),
        SpecItem::Mod { ident, .. } => Option::Some((ident, true)),
        SpecItem::Impl { .. } => Option::None,
        SpecItem::Use { .. } => Option::None,
    }
}

/// The implicit rule for the declaration's own name: added unless the name
/// is kept, already has an explicit rule, or the item is nameless.  An
/// explicit `self` name becomes an override for this variant's key.
pub open spec fn spec_self_rules(env: SpecMacroParameters, i: SpecItem) -> Seq<SpecIdentRule> {
    match spec_item_name(i) {
        Option::None => Seq::empty(),
        Option::Some((name, snake)) => if env.keep_self {
            Seq::empty()
        } else {
            match env.self_name {
                Option::Some(sn) => seq![
                    SpecIdentRule {
                        ident: name,
                        keep: false,
                        use_mode: false,
                        snake: snake,
                        overrides: (match env.key {
                            Option::Some(k) => seq![
                                SpecIdentOverride { key: k, name: Option::Some(sn) },
                            ],
                            Option::None => Seq::empty(),
                        }),
                    },
                ],
                Option::None => if spec_idents_get(env.idents, name) is None {
                    seq![
                        SpecIdentRule {
                            ident: name,
                            keep: false,
                            use_mode: false,
                            snake: snake,
                            overrides: Seq::empty(),
                        },
                    ]
                } else {
                    Seq::empty()
                },
            }
        },
    }
}

pub open spec fn spec_env_for(g: SpecGlobalParams, v: SpecVariantSpec, i: SpecItem)
    -> SpecMacroParameters {
    let env0 = spec_merge(g, v);
    SpecMacroParameters { idents: env0.idents + spec_self_rules(env0, i), ..env0 }
}

// ---------------------------------------------------------------------------
// Duplicate variant keys.
// ---------------------------------------------------------------------------

pub open spec fn spec_keys_contain(vs: Seq<SpecVariantSpec>, k: Seq<char>) -> bool
    decreases vs,
{
    if vs.len() == 0 {
        false
    } else {
        vs.last().key == k || spec_keys_contain(vs.drop_last(), k)
    }
}

/// The first key declared twice, scanning in declaration order.
pub open spec fn spec_first_dup(vs: Seq<SpecVariantSpec>) -> Option<Seq<char>>
    decreases vs,
{
    if vs.len() == 0 {
        Option::None
    } else {
        match spec_first_dup(vs.drop_last()) {
            Option::Some(k) => Option::Some(k),
            Option::None => if spec_keys_contain(vs.drop_last(), vs.last().key) {
                Option::Some(vs.last().key)
            } else {
                Option::None
            },
        }
    }
}

// ---------------------------------------------------------------------------
// The erasure pass: terminal markers.
// ---------------------------------------------------------------------------

pub open spec fn spec_is_marker(a: SpecAttr, prefix: Seq<char>, word: Seq<char>) -> bool {
    a.path.len() == 2 && a.path[0] == prefix && a.path[1] == word
}

pub open spec fn spec_has_remove(attrs: Seq<SpecAttr>, prefix: Seq<char>) -> bool
    decreases attrs,
{
    if attrs.len() == 0 {
        false
    } else {
        spec_is_marker(attrs.last(), prefix, "remove"@) || spec_has_remove(
            attrs.drop_last(),
            prefix,
        )
    }
}

/// Strip the no-op markers from a kept node's attributes.
pub open spec fn spec_strip_noop(attrs: Seq<SpecAttr>, prefix: Seq<char>) -> Seq<SpecAttr>
    decreases attrs,
{
    if attrs.len() == 0 {
        Seq::empty()
    } else {
        let prev = spec_strip_noop(attrs.drop_last(), prefix);
        if spec_is_marker(attrs.last(), prefix, "noop"@) {
            prev
        } else {
            prev.push(attrs.last())
        }
    }
}

pub open spec fn spec_erase_fields(fields: Seq<SpecField>, prefix: Seq<char>) -> Seq<SpecField>
    decreases fields,
{
    if fields.len() == 0 {
        Seq::empty()
    } else {
        let prev = spec_erase_fields(fields.drop_last(), prefix);
        let f = fields.last();
        if spec_has_remove(f.attrs, prefix) {
            prev
        } else {
            prev.push(SpecField { attrs: spec_strip_noop(f.attrs, prefix), ..f })
        }
    }
}

pub open spec fn spec_erase_methods(ms: Seq<SpecTraitMethod>, prefix: Seq<char>) -> Seq<
    SpecTraitMethod,
>
    decreases ms,
{
    if ms.len() == 0 {
        Seq::empty()
    } else {
        let prev = spec_erase_methods(ms.drop_last(), prefix);
        let m = ms.last();
        if spec_has_remove(m.attrs, prefix) {
            prev
        } else {
            prev.push(SpecTraitMethod { attrs: spec_strip_noop(m.attrs, prefix), ..m })
        }
    }
}

pub open spec fn spec_erase_fndefs(ms: Seq<SpecFnDef>, prefix: Seq<char>) -> Seq<SpecFnDef>
    decreases ms,
{
    if ms.len() == 0 {
        Seq::empty()
    } else {
        let prev = spec_erase_fndefs(ms.drop_last(), prefix);
        let m = ms.last();
        if spec_has_remove(m.attrs, prefix) {
            prev
        } else {
            prev.push(SpecFnDef { attrs: spec_strip_noop(m.attrs, prefix), ..m })
        }
    }
}

/// Erase one declaration: `None` when the declaration itself carries the
/// removal marker; otherwise its declaration-level sub-items tagged with the
/// marker are deleted and the no-op markers are stripped.
pub open spec fn spec_erase_item(i: SpecItem, prefix: Seq<char>) -> Option<SpecItem>
    decreases i, 1int,
{
    let attrs = spec_item_attrs(i);
    if spec_has_remove(attrs, prefix) {
        Option::None
    } else {
        let a2 = spec_strip_noop(attrs, prefix);
        Option::Some(
            match i {
                SpecItem::Fn(f) => SpecItem::Fn(SpecFnDef { attrs: a2, ..f }),
                SpecItem::Struct { attrs: _, ident, fields } => SpecItem::Struct {
                    attrs: a2,
                    ident: ident,
                    fields: spec_erase_fields(fields, prefix),
                },
                SpecItem::Trait { attrs: _, ident, methods } => SpecItem::Trait {
                    attrs: a2,
                    ident: ident,
                    methods: spec_erase_methods(methods, prefix),
                },
                SpecItem::Impl { attrs: _, trait_path, self_ty, methods } => SpecItem::Impl {
                    attrs: a2,
                    trait_path: trait_path,
                    self_ty: self_ty,
                    methods: spec_erase_fndefs(methods, prefix),
                },
                SpecItem::Use { attrs: _, tree } => SpecItem::Use { attrs: a2, tree: tree },
                SpecItem::Mod { attrs: _, ident, items } => SpecItem::Mod {
                    attrs: a2,
                    ident: ident,
                    items: spec_erase_items(items, prefix),
                },
            },
        )
    }
}

pub open spec fn spec_erase_items(items: Seq<SpecItem>, prefix: Seq<char>) -> Seq<SpecItem>
    decreases items, 2int,
{
    if items.len() == 0 {
        Seq::empty()
    } else {
        let prev = spec_erase_items(items.drop_last(), prefix);
        match spec_erase_item(items.last(), prefix) {
            Option::Some(it) => prev.push(it),
            Option::None => prev,
        }
    }
}

pub open spec fn spec_item_attrs(i: SpecItem) -> Seq<SpecAttr> {
    match i {
        SpecItem::Fn(f) => f.attrs,
        SpecItem::Struct { attrs, .. } => attrs,
        SpecItem::Trait { attrs, .. } => attrs,
        SpecItem::Impl { attrs, .. } => attrs,
        SpecItem::Use { attrs, .. } => attrs,
        SpecItem::Mod { attrs, .. } => attrs,
    }
}

pub open spec fn spec_item_with_attrs(i: SpecItem, a: Seq<SpecAttr>) -> SpecItem {
    match i {
        SpecItem::Fn(f) => SpecItem::Fn(SpecFnDef { attrs: a, ..f }),
        SpecItem::Struct { attrs: _, ident, fields } => SpecItem::Struct {
            attrs: a,
            ident: ident,
            fields: fields,
        },
        SpecItem::Trait { attrs: _, ident, methods } => SpecItem::Trait {
            attrs: a,
            ident: ident,
            methods: methods,
        },
        SpecItem::Impl { attrs: _, trait_path, self_ty, methods } => SpecItem::Impl {
            attrs: a,
            trait_path: trait_path,
            self_ty: self_ty,
            methods: methods,
        },
        SpecItem::Use { attrs: _, tree } => SpecItem::Use { attrs: a, tree: tree },
        SpecItem::Mod { attrs: _, ident, items } => SpecItem::Mod {
            attrs: a,
            ident: ident,
            items: items,
        },
    }
}

// ---------------------------------------------------------------------------
// The dispatcher.
// ---------------------------------------------------------------------------

/// The attributes of one emitted variant: the extra outer attributes, then
/// the condition wrapper, then the extra inner attributes, then the
/// rewritten declaration's own attributes.
pub open spec fn spec_variant_attrs(env: SpecMacroParameters, own: Seq<SpecAttr>) -> Seq<
    SpecAttr,
> {
    let cfg: Seq<SpecAttr> = match env.condition {
        Option::Some(metas) => seq![SpecAttr { path: seq!["cfg"@], args: metas }],
        Option::None => Seq::empty(),
    };
    env.outer_attrs + cfg + env.inner_attrs + own
}

/// One variant's contribution: nothing when the variant is disabled or the
/// whole declaration was erased; otherwise the rewritten, erased, gated
/// declaration.
pub open spec fn spec_expand_variant(
    g: SpecGlobalParams,
    v: SpecVariantSpec,
    item: SpecItem,
) -> Result<Seq<SpecItem>, SpecMacError> {
    if v.disable {
        Result::Ok(Seq::empty())
    } else {
        let env = spec_env_for(g, v, item);
        match spec_rw_item(item, env, Seq::empty()) {
            Result::Err(e) => Result::Err(e),
            Result::Ok(rewritten) => match spec_erase_item(rewritten, env.prefix) {
                Option::None => Result::Ok(Seq::empty()),
                Option::Some(erased) => Result::Ok(
                    seq![
                        spec_item_with_attrs(
                            erased,
                            spec_variant_attrs(env, spec_item_attrs(erased)),
                        ),
                    ],
                ),
            },
        }
    }
}

pub open spec fn spec_expand_upto(
    g: SpecGlobalParams,
    item: SpecItem,
    n: int,
) -> Result<Seq<SpecItem>, SpecMacError>
    decreases n
        when 0 <= n
{
    if n == 0 {
        Result::Ok(Seq::empty())
    } else {
        match spec_expand_upto(g, item, n - 1) {
            Result::Err(e) => Result::Err(e),
            Result::Ok(prev) => match spec_expand_variant(g, g.variants[n - 1], item) {
                Result::Err(e) => Result::Err(e),
                Result::Ok(one) => Result::Ok(prev + one),
            },
        }
    }
}

/// The whole invocation: parse the parameter list, check key uniqueness,
/// and emit each enabled variant in declaration order.  With `disable` the
/// declaration is returned unchanged.
pub open spec fn spec_maybe(args: Seq<Meta>, item: SpecItem) -> Result<
    Seq<SpecItem>,
    SpecMacError,
> {
    match spec_parse_global(args) {
        Result::Err(e) => Result::Err(e),
        Result::Ok(g) => if g.disable {
            Result::Ok(seq![item])
        } else {
            match spec_first_dup(g.variants) {
                Option::Some(k) => Result::Err(SpecMacError::DuplicateKey(k)),
                Option::None => spec_expand_upto(g, item, g.variants.len() as int),
            }
        },
    }
}

} // verus!

verus! {

// ---------------------------------------------------------------------------
// Executable parsing.
// ---------------------------------------------------------------------------

fn clone_overrides(v: &Vec<IdentOverride>) -> (r: Vec<IdentOverride>)
    ensures
        overrides_dv(r@) == overrides_dv(v@),
{
    let mut r: Vec<IdentOverride> = Vec::new();
    let mut i: usize = 0;
    while i < v.len()
        invariant
            0 <= i <= v.len(),
            r@.len() == i,
            forall|j: int| 0 <= j < i ==> crate::params::override_dv(r@[j])
                == crate::params::override_dv(v@[j]),
        decreases v@.len() - i,
    {
        let o = IdentOverride {
            key: clone_string(&v[i].key),
            name: crate::ast::clone_opt_string(&v[i].name),
        };
        r.push(o);
        i = i + 1;
    }
    proof {
        crate::params::lemma_overrides_dv(r@);
        crate::params::lemma_overrides_dv(v@);
        assert(overrides_dv(r@) =~= overrides_dv(v@));
    }
    r
}

fn clone_rules(v: &Vec<IdentRule>) -> (r: Vec<IdentRule>)
    ensures
        rules_dv(r@) == rules_dv(v@),
{
    let mut r: Vec<IdentRule> = Vec::new();
    let mut i: usize = 0;
    while i < v.len()
        invariant
            0 <= i <= v.len(),
            r@.len() == i,
            forall|j: int| 0 <= j < i ==> rule_dv(r@[j]) == rule_dv(v@[j]),
        decreases v@.len() - i,
    {
        let x = IdentRule {
            ident: clone_string(&v[i].ident),
            keep: v[i].keep,
            use_mode: v[i].use_mode,
            snake: v[i].snake,
            overrides: clone_overrides(&v[i].overrides),
        };
        r.push(x);
        i = i + 1;
    }
    proof {
        crate::params::lemma_rules_dv(r@);
        crate::params::lemma_rules_dv(v@);
        assert(rules_dv(r@) =~= rules_dv(v@));
    }
    r
}

fn clone_repls(v: &Vec<FeatureRepl>) -> (r: Vec<FeatureRepl>)
    ensures
        repls_dv(r@) == repls_dv(v@),
{
    let mut r: Vec<FeatureRepl> = Vec::new();
    let mut i: usize = 0;
    while i < v.len()
        invariant
            0 <= i <= v.len(),
            r@.len() == i,
            forall|j: int| 0 <= j < i ==> crate::params::repl_dv(r@[j])
                == crate::params::repl_dv(v@[j]),
        decreases v@.len() - i,
    {
        let x = FeatureRepl {
            old_name: clone_string(&v[i].old_name),
            new_name: clone_string(&v[i].new_name),
        };
        r.push(x);
        i = i + 1;
    }
    proof {
        crate::params::lemma_repls_dv(r@);
        crate::params::lemma_repls_dv(v@);
        assert(repls_dv(r@) =~= repls_dv(v@));
    }
    r
}

fn parse_send(v: &String) -> (r: Result<Option<bool>, MacError>)
    ensures
        (match r {
            Result::Ok(s) => spec_parse_send(v@) == Result::<Option<bool>, SpecMacError>::Ok(s),
            Result::Err(e) => spec_parse_send(v@) == Result::<Option<bool>, SpecMacError>::Err(
                err_dv(e),
            ),
        }),
{
    if is_word(v, "Send") || is_word(v, "true") {
        Result::Ok(Option::Some(true))
    } else if is_word(v, "?Send") || is_word(v, "false") {
        Result::Ok(Option::Some(false))
    } else if is_word(v, "") {
        Result::Ok(Option::None)
    } else {
        Result::Err(MacError::WrongShape(String::from_str("send")))
    }
}

fn apply_rule_flag(r: IdentRule, m: &Meta) -> (o: Result<IdentRule, MacError>)
    ensures
        (match o {
            Result::Ok(r2) => spec_apply_rule_flag(rule_dv(r), *m) == Result::<
                SpecIdentRule,
                SpecMacError,
            >::Ok(rule_dv(r2)),
            Result::Err(e) => spec_apply_rule_flag(rule_dv(r), *m) == Result::<
                SpecIdentRule,
                SpecMacError,
            >::Err(err_dv(e)),
        }),
{
    match m {
        Meta::Word(w) => {
            if is_word(w, "keep") {
                let mut r2 = r;
                r2.keep = true;
                Result::Ok(r2)
            } else if is_word(w, "use") {
                let mut r2 = r;
                r2.use_mode = true;
                Result::Ok(r2)
            } else if is_word(w, "snake") || is_word(w, "fn") || is_word(w, "mod") {
                let mut r2 = r;
                r2.snake = true;
                Result::Ok(r2)
            } else {
                let mut r2 = r;
                let ghost pre = r2.overrides@;
                r2.overrides.push(IdentOverride { key: clone_string(w), name: Option::None });
                proof {
                    assert(r2.overrides@.drop_last() =~= pre);
                }
                Result::Ok(r2)
            }
        },
        Meta::NameValue(k, v) => {
            let mut r2 = r;
            let ghost pre = r2.overrides@;
            r2.overrides.push(
                IdentOverride { key: clone_string(k), name: Option::Some(clone_string(v)) },
            );
            proof {
                assert(r2.overrides@.drop_last() =~= pre);
            }
            Result::Ok(r2)
        },
        Meta::Str(s) => Result::Err(MacError::WrongShape(clone_string(s))),
        Meta::List(n, _) => Result::Err(MacError::WrongShape(clone_string(n))),
    }
}

fn parse_rule_upto(name: &String, flags: &Vec<Meta>, n: usize) -> (o: Result<
    IdentRule,
    MacError,
>)
    requires
        n <= flags@.len(),
    ensures
        (match o {
            Result::Ok(r2) => spec_parse_rule_upto(name@, flags@, n as int) == Result::<
                SpecIdentRule,
                SpecMacError,
            >::Ok(rule_dv(r2)),
            Result::Err(e) => spec_parse_rule_upto(name@, flags@, n as int) == Result::<
                SpecIdentRule,
                SpecMacError,
            >::Err(err_dv(e)),
        }),
    decreases n,
{
    if n == 0 {
        let r = IdentRule {
            ident: clone_string(name),
            keep: false,
            use_mode: false,
            snake: false,
            overrides: Vec::new(),
        };
        proof {
            assert(overrides_dv(r.overrides@) =~= Seq::<SpecIdentOverride>::empty());
        }
        Result::Ok(r)
    } else {
        let prev = match parse_rule_upto(name, flags, n - 1) {
            Result::Ok(x) => x,
            Result::Err(e) => {
                return Result::Err(e);
            },
        };
        apply_rule_flag(prev, &flags[n - 1])
    }
}

fn parse_rules_upto(args: &Vec<Meta>, n: usize) -> (o: Result<Vec<IdentRule>, MacError>)
    requires
        n <= args@.len(),
    ensures
        (match o {
            Result::Ok(rs) => spec_parse_rules_upto(args@, n as int) == Result::<
                Seq<SpecIdentRule>,
                SpecMacError,
            >::Ok(rules_dv(rs@)),
            Result::Err(e) => spec_parse_rules_upto(args@, n as int) == Result::<
                Seq<SpecIdentRule>,
                SpecMacError,
            >::Err(err_dv(e)),
        }),
    decreases n,
{
    if n == 0 {
        Result::Ok(Vec::new())
    } else {
        let mut prev = match parse_rules_upto(args, n - 1) {
            Result::Ok(x) => x,
            Result::Err(e) => {
                return Result::Err(e);
            },
        };
        match &args[n - 1] {
            Meta::Word(w) => {
                let r = IdentRule {
                    ident: clone_string(w),
                    keep: false,
                    use_mode: false,
                    snake: false,
                    overrides: Vec::new(),
                };
                proof {
                    assert(overrides_dv(r.overrides@) =~= Seq::<SpecIdentOverride>::empty());
                }
                let ghost pre = prev@;
                prev.push(r);
                proof {
                    assert(prev@.drop_last() =~= pre);
                }
                Result::Ok(prev)
            },
            Meta::List(w, flags) => {
                let r = match parse_rule_upto(w, flags, flags.len()) {
                    Result::Ok(x) => x,
                    Result::Err(e) => {
                        return Result::Err(e);
                    },
                };
                let ghost pre = prev@;
                prev.push(r);
                proof {
                    assert(prev@.drop_last() =~= pre);
                }
                Result::Ok(prev)
            },
            Meta::Str(s) => Result::Err(MacError::WrongShape(clone_string(s))),
            Meta::NameValue(nn, _) => Result::Err(MacError::WrongShape(clone_string(nn))),
        }
    }
}

fn metas_attrs_upto(acc: Vec<Attr>, args: &Vec<Meta>, n: usize) -> (o: Result<
    Vec<Attr>,
    MacError,
>)
    requires
        n <= args@.len(),
    ensures
        (match o {
            Result::Ok(a) => spec_metas_attrs_upto(attrs_dv(acc@), args@, n as int) == Result::<
                Seq<SpecAttr>,
                SpecMacError,
            >::Ok(attrs_dv(a@)),
            Result::Err(e) => spec_metas_attrs_upto(attrs_dv(acc@), args@, n as int) == Result::<
                Seq<SpecAttr>,
                SpecMacError,
            >::Err(err_dv(e)),
        }),
    decreases n,
{
    if n == 0 {
        Result::Ok(acc)
    } else {
        let mut prev = match metas_attrs_upto(acc, args, n - 1) {
            Result::Ok(x) => x,
            Result::Err(e) => {
                return Result::Err(e);
            },
        };
        let at: Attr = match &args[n - 1] {
            Meta::Word(w) => {
                let mut path: Vec<String> = Vec::new();
                path.push(clone_string(w));
                let a = Attr { path, args: Vec::new() };
                proof {
                    crate::ast::lemma_strings_dv(a.path@);
                    assert(crate::ast::strings_dv(a.path@) =~= seq![w@]);
                    assert(metas_dv(a.args@) =~= Seq::<SpecMeta>::empty());
                }
                a
            },
            Meta::List(nn, margs) => {
                let mut path: Vec<String> = Vec::new();
                path.push(clone_string(nn));
                let a = Attr { path, args: clone_metas(margs) };
                proof {
                    crate::ast::lemma_strings_dv(a.path@);
                    assert(crate::ast::strings_dv(a.path@) =~= seq![nn@]);
                }
                a
            },
            Meta::Str(s) => {
                return Result::Err(MacError::WrongShape(clone_string(s)));
            },
            Meta::NameValue(nn, _) => {
                return Result::Err(MacError::WrongShape(clone_string(nn)));
            },
        };
        let ghost pre = prev@;
        prev.push(at);
        proof {
            assert(prev@.drop_last() =~= pre);
        }
        Result::Ok(prev)
    }
}

fn drop_names_upto(acc: Vec<String>, args: &Vec<Meta>, n: usize) -> (o: Result<
    Vec<String>,
    MacError,
>)
    requires
        n <= args@.len(),
    ensures
        (match o {
            Result::Ok(a) => spec_drop_names_upto(crate::ast::strings_dv(acc@), args@, n as int)
                == Result::<Seq<Seq<char>>, SpecMacError>::Ok(crate::ast::strings_dv(a@)),
            Result::Err(e) => spec_drop_names_upto(crate::ast::strings_dv(acc@), args@, n as int)
                == Result::<Seq<Seq<char>>, SpecMacError>::Err(err_dv(e)),
        }),
    decreases n,
{
    if n == 0 {
        Result::Ok(acc)
    } else {
        let mut prev = match drop_names_upto(acc, args, n - 1) {
            Result::Ok(x) => x,
            Result::Err(e) => {
                return Result::Err(e);
            },
        };
        match &args[n - 1] {
            Meta::Word(w) => {
                let ghost pre = prev@;
                prev.push(clone_string(w));
                proof {
                    assert(prev@.drop_last() =~= pre);
                }
                Result::Ok(prev)
            },
            _ => Result::Err(MacError::WrongShape(String::from_str("drop_attrs"))),
        }
    }
}

fn repl_pair(args: &Vec<Meta>) -> (o: Result<FeatureRepl, MacError>)
    ensures
        (match o {
            Result::Ok(p) => spec_repl_pair(args@) == Result::<
                crate::params::SpecFeatureRepl,
                SpecMacError,
            >::Ok(crate::params::repl_dv(p)),
            Result::Err(e) => spec_repl_pair(args@) == Result::<
                crate::params::SpecFeatureRepl,
                SpecMacError,
            >::Err(err_dv(e)),
        }),
{
    if args.len() == 2 {
        let a = &args[0];
        let b = &args[1];
        match (a, b) {
            (Meta::Str(x), Meta::Str(y)) => Result::Ok(
                FeatureRepl { old_name: clone_string(x), new_name: clone_string(y) },
            ),
            _ => Result::Err(MacError::WrongShape(String::from_str("replace_feature"))),
        }
    } else {
        Result::Err(MacError::WrongShape(String::from_str("replace_feature")))
    }
}

} // verus!

verus! {

fn apply_variant(v: VariantSpec, m: &Meta) -> (o: Result<VariantSpec, MacError>)
    ensures
        (match o {
            Result::Ok(v2) => spec_apply_variant(variant_dv(v), *m) == Result::<
                SpecVariantSpec,
                SpecMacError,
            >::Ok(variant_dv(v2)),
            Result::Err(e) => spec_apply_variant(variant_dv(v), *m) == Result::<
                SpecVariantSpec,
                SpecMacError,
            >::Err(err_dv(e)),
        }),
{
    match m {
        Meta::Word(w) => {
            if is_word(w, "disable") {
                let mut v2 = v;
                v2.disable = true;
                Result::Ok(v2)
            } else if is_word(w, "keep_self") {
                let mut v2 = v;
                v2.keep_self = true;
                Result::Ok(v2)
            } else {
                Result::Err(MacError::UnknownParam(clone_string(w)))
            }
        },
        Meta::NameValue(n, val) => {
            if is_word(n, "key") {
                let mut v2 = v;
                v2.key = clone_string(val);
                Result::Ok(v2)
            } else if is_word(n, "feature") {
                let mut v2 = v;
                let mut c: Vec<Meta> = Vec::new();
                c.push(Meta::NameValue(String::from_str("feature"), clone_string(val)));
                proof {
                    crate::ast::lemma_metas_dv(c@);
                    assert(metas_dv(c@) =~= seq![SpecMeta::NameValue("feature"@, val@)]);
                }
                v2.condition = Option::Some(c);
                Result::Ok(v2)
            } else if is_word(n, "self") {
                let mut v2 = v;
                v2.self_name = Option::Some(clone_string(val));
                Result::Ok(v2)
            } else if is_word(n, "send") {
                let s = match parse_send(val) {
                    Result::Ok(x) => x,
                    Result::Err(e) => {
                        return Result::Err(e);
                    },
                };
                let mut v2 = v;
                v2.send = s;
                Result::Ok(v2)
            } else if is_word(n, "prefix") {
                let mut v2 = v;
                v2.prefix = Option::Some(clone_string(val));
                Result::Ok(v2)
            } else {
                Result::Err(MacError::UnknownParam(clone_string(n)))
            }
        },
        Meta::List(n, args) => {
            if is_word(n, "cfg") {
                let mut v2 = v;
                v2.condition = Option::Some(clone_metas(args));
                Result::Ok(v2)
            } else if is_word(n, "any") || is_word(n, "all") || is_word(n, "not") {
                let mut v2 = v;
                let mut c: Vec<Meta> = Vec::new();
                c.push(Meta::List(clone_string(n), clone_metas(args)));
                proof {
                    crate::ast::lemma_metas_dv(c@);
                    assert(metas_dv(c@) =~= seq![SpecMeta::List(n@, metas_dv(args@))]);
                }
                v2.condition = Option::Some(c);
                Result::Ok(v2)
            } else if is_word(n, "idents") {
                let mut rs = match parse_rules_upto(args, args.len()) {
                    Result::Ok(x) => x,
                    Result::Err(e) => {
                        return Result::Err(e);
                    },
                };
                let mut v2 = v;
                let ghost pre = v2.idents@;
                let ghost add = rs@;
                v2.idents.append(&mut rs);
                proof {
                    crate::params::lemma_rules_dv(v2.idents@);
                    crate::params::lemma_rules_dv(pre);
                    crate::params::lemma_rules_dv(add);
                    assert(rules_dv(v2.idents@) =~= rules_dv(pre) + rules_dv(add));
                }
                Result::Ok(v2)
            } else if is_word(n, "drop_attrs") {
                let mut v2 = v;
                let names = match drop_names_upto(v2.drop_attrs_list, args, args.len()) {
                    Result::Ok(x) => x,
                    Result::Err(e) => {
                        return Result::Err(e);
                    },
                };
                v2.drop_attrs_list = names;
                Result::Ok(v2)
            } else if is_word(n, "replace_feature") {
                let p = match repl_pair(args) {
                    Result::Ok(x) => x,
                    Result::Err(e) => {
                        return Result::Err(e);
                    },
                };
                let mut v2 = v;
                let ghost pre = v2.replace_features@;
                v2.replace_features.push(p);
                proof {
                    assert(v2.replace_features@.drop_last() =~= pre);
                }
                Result::Ok(v2)
            } else if is_word(n, "outer") {
                let mut v2 = v;
                let a = match metas_attrs_upto(v2.outer_attrs, args, args.len()) {
                    Result::Ok(x) => x,
                    Result::Err(e) => {
                        return Result::Err(e);
                    },
                };
                v2.outer_attrs = a;
                Result::Ok(v2)
            } else if is_word(n, "inner") {
                let mut v2 = v;
                let a = match metas_attrs_upto(v2.inner_attrs, args, args.len()) {
                    Result::Ok(x) => x,
                    Result::Err(e) => {
                        return Result::Err(e);
                    },
                };
                v2.inner_attrs = a;
                Result::Ok(v2)
            } else {
                Result::Err(MacError::UnknownParam(clone_string(n)))
            }
        },
        Meta::Str(s) => Result::Err(MacError::WrongShape(clone_string(s))),
    }
}

fn default_variant(mode: ConvertMode, key: String) -> (v: VariantSpec)
    ensures
        variant_dv(v) == spec_default_variant(mode, key@),
{
    let v = VariantSpec {
        mode,
        key,
        disable: false,
        keep_self: false,
        self_name: Option::None,
        send: Option::None,
        condition: Option::None,
        idents: Vec::new(),
        drop_attrs_list: Vec::new(),
        replace_features: Vec::new(),
        inner_attrs: Vec::new(),
        outer_attrs: Vec::new(),
        prefix: Option::None,
    };
    proof {
        assert(rules_dv(v.idents@) =~= Seq::<SpecIdentRule>::empty());
        assert(crate::ast::strings_dv(v.drop_attrs_list@) =~= Seq::<Seq<char>>::empty());
        assert(repls_dv(v.replace_features@) =~= Seq::<
            crate::params::SpecFeatureRepl,
        >::empty());
        assert(attrs_dv(v.inner_attrs@) =~= Seq::<SpecAttr>::empty());
        assert(attrs_dv(v.outer_attrs@) =~= Seq::<SpecAttr>::empty());
    }
    v
}

fn parse_variant_upto(mode: ConvertMode, key: &String, args: &Vec<Meta>, n: usize) -> (o: Result<
    VariantSpec,
    MacError,
>)
    requires
        n <= args@.len(),
    ensures
        (match o {
            Result::Ok(v2) => spec_parse_variant_upto(mode, key@, args@, n as int) == Result::<
                SpecVariantSpec,
                SpecMacError,
            >::Ok(variant_dv(v2)),
            Result::Err(e) => spec_parse_variant_upto(mode, key@, args@, n as int) == Result::<
                SpecVariantSpec,
                SpecMacError,
            >::Err(err_dv(e)),
        }),
    decreases n,
{
    if n == 0 {
        Result::Ok(default_variant(mode, clone_string(key)))
    } else {
        let prev = match parse_variant_upto(mode, key, args, n - 1) {
            Result::Ok(x) => x,
            Result::Err(e) => {
                return Result::Err(e);
            },
        };
        apply_variant(prev, &args[n - 1])
    }
}

fn apply_global(g: GlobalParams, m: &Meta) -> (o: Result<GlobalParams, MacError>)
    ensures
        (match o {
            Result::Ok(g2) => spec_apply_global(global_dv(g), *m) == Result::<
                SpecGlobalParams,
                SpecMacError,
            >::Ok(global_dv(g2)),
            Result::Err(e) => spec_apply_global(global_dv(g), *m) == Result::<
                SpecGlobalParams,
                SpecMacError,
            >::Err(err_dv(e)),
        }),
{
    match m {
        Meta::Word(w) => {
            if is_word(w, "disable") {
                let mut g2 = g;
                g2.disable = true;
                Result::Ok(g2)
            } else if is_word(w, "keep_self") {
                let mut g2 = g;
                g2.keep_self = true;
                Result::Ok(g2)
            } else if is_word(w, "sync") {
                let mut g2 = g;
                let v = default_variant(ConvertMode::IntoSync, String::from_str("sync"));
                let ghost pre = g2.variants@;
                g2.variants.push(v);
                proof {
                    assert(g2.variants@.drop_last() =~= pre);
                }
                Result::Ok(g2)
            } else if is_word(w, "async") {
                let mut g2 = g;
                let v = default_variant(ConvertMode::IntoAsync, String::from_str("async"));
                let ghost pre = g2.variants@;
                g2.variants.push(v);
                proof {
                    assert(g2.variants@.drop_last() =~= pre);
                }
                Result::Ok(g2)
            } else {
                Result::Err(MacError::UnknownParam(clone_string(w)))
            }
        },
        Meta::NameValue(n, val) => {
            if is_word(n, "prefix") {
                let mut g2 = g;
                g2.prefix = Option::Some(clone_string(val));
                Result::Ok(g2)
            } else if is_word(n, "send") {
                let s = match parse_send(val) {
                    Result::Ok(x) => x,
                    Result::Err(e) => {
                        return Result::Err(e);
                    },
                };
                let mut g2 = g;
                g2.send = s;
                Result::Ok(g2)
            } else {
                Result::Err(MacError::UnknownParam(clone_string(n)))
            }
        },
        Meta::List(n, args) => {
            if is_word(n, "sync") || is_word(n, "async") {
                let mode = if is_word(n, "sync") {
                    ConvertMode::IntoSync
                } else {
                    ConvertMode::IntoAsync
                };
                let v = match parse_variant_upto(mode, n, args, args.len()) {
                    Result::Ok(x) => x,
                    Result::Err(e) => {
                        return Result::Err(e);
                    },
                };
                let mut g2 = g;
                let ghost pre = g2.variants@;
                g2.variants.push(v);
                proof {
                    assert(g2.variants@.drop_last() =~= pre);
                }
                Result::Ok(g2)
            } else if is_word(n, "idents") {
                let mut rs = match parse_rules_upto(args, args.len()) {
                    Result::Ok(x) => x,
                    Result::Err(e) => {
                        return Result::Err(e);
                    },
                };
                let mut g2 = g;
                let ghost pre = g2.idents@;
                let ghost add = rs@;
                g2.idents.append(&mut rs);
                proof {
                    crate::params::lemma_rules_dv(g2.idents@);
                    crate::params::lemma_rules_dv(pre);
                    crate::params::lemma_rules_dv(add);
                    assert(rules_dv(g2.idents@) =~= rules_dv(pre) + rules_dv(add));
                }
                Result::Ok(g2)
            } else if is_word(n, "drop_attrs") {
                let mut g2 = g;
                let names = match drop_names_upto(g2.drop_attrs_list, args, args.len()) {
                    Result::Ok(x) => x,
                    Result::Err(e) => {
                        return Result::Err(e);
                    },
                };
                g2.drop_attrs_list = names;
                Result::Ok(g2)
            } else if is_word(n, "replace_feature") {
                let p = match repl_pair(args) {
                    Result::Ok(x) => x,
                    Result::Err(e) => {
                        return Result::Err(e);
                    },
                };
                let mut g2 = g;
                let ghost pre = g2.replace_features@;
                g2.replace_features.push(p);
                proof {
                    assert(g2.replace_features@.drop_last() =~= pre);
                }
                Result::Ok(g2)
            } else if is_word(n, "outer") {
                let mut g2 = g;
                let a = match metas_attrs_upto(g2.outer_attrs, args, args.len()) {
                    Result::Ok(x) => x,
                    Result::Err(e) => {
                        return Result::Err(e);
                    },
                };
                g2.outer_attrs = a;
                Result::Ok(g2)
            } else if is_word(n, "inner") {
                let mut g2 = g;
                let a = match metas_attrs_upto(g2.inner_attrs, args, args.len()) {
                    Result::Ok(x) => x,
                    Result::Err(e) => {
                        return Result::Err(e);
                    },
                };
                g2.inner_attrs = a;
                Result::Ok(g2)
            } else {
                Result::Err(MacError::UnknownParam(clone_string(n)))
            }
        },
        Meta::Str(s) => Result::Err(MacError::WrongShape(clone_string(s))),
    }
}

fn parse_global_upto(args: &Vec<Meta>, n: usize) -> (o: Result<GlobalParams, MacError>)
    requires
        n <= args@.len(),
    ensures
        (match o {
            Result::Ok(g2) => spec_parse_global_upto(args@, n as int) == Result::<
                SpecGlobalParams,
                SpecMacError,
            >::Ok(global_dv(g2)),
            Result::Err(e) => spec_parse_global_upto(args@, n as int) == Result::<
                SpecGlobalParams,
                SpecMacError,
            >::Err(err_dv(e)),
        }),
    decreases n,
{
    if n == 0 {
        let g = GlobalParams {
            disable: false,
            prefix: Option::None,
            keep_self: false,
            send: Option::None,
            idents: Vec::new(),
            drop_attrs_list: Vec::new(),
            replace_features: Vec::new(),
            inner_attrs: Vec::new(),
            outer_attrs: Vec::new(),
            variants: Vec::new(),
        };
        proof {
            assert(rules_dv(g.idents@) =~= Seq::<SpecIdentRule>::empty());
            assert(crate::ast::strings_dv(g.drop_attrs_list@) =~= Seq::<Seq<char>>::empty());
            assert(repls_dv(g.replace_features@) =~= Seq::<
                crate::params::SpecFeatureRepl,
            >::empty());
            assert(attrs_dv(g.inner_attrs@) =~= Seq::<SpecAttr>::empty());
            assert(attrs_dv(g.outer_attrs@) =~= Seq::<SpecAttr>::empty());
            assert(variants_dv(g.variants@) =~= Seq::<SpecVariantSpec>::empty());
        }
        Result::Ok(g)
    } else {
        let prev = match parse_global_upto(args, n - 1) {
            Result::Ok(x) => x,
            Result::Err(e) => {
                return Result::Err(e);
            },
        };
        apply_global(prev, &args[n - 1])
    }
}

/// Parse the whole declarative parameter list.
pub fn parse_global(args: &Vec<Meta>) -> (o: Result<GlobalParams, MacError>)
    ensures
        (match o {
            Result::Ok(g2) => spec_parse_global(args@) == Result::<
                SpecGlobalParams,
                SpecMacError,
            >::Ok(global_dv(g2)),
            Result::Err(e) => spec_parse_global(args@) == Result::<
                SpecGlobalParams,
                SpecMacError,
            >::Err(err_dv(e)),
        }),
{
    parse_global_upto(args, args.len())
}

} // verus!

verus! {

// ---------------------------------------------------------------------------
// Executable merge, duplicate check, erasure, and dispatch.
// ---------------------------------------------------------------------------

fn merge(g: &GlobalParams, v: &VariantSpec) -> (r: MacroParameters)
    ensures
        params_dv(r) == spec_merge(global_dv(*g), variant_dv(*v)),
{
    let prefix: String = match &v.prefix {
        Option::Some(p) => clone_string(p),
        Option::None => match &g.prefix {
            Option::Some(p) => clone_string(p),
            Option::None => String::from_str("maybe_async_cfg2"),
        },
    };
    let send: Option<bool> = match v.send {
        Option::Some(b) => Option::Some(b),
        Option::None => g.send,
    };
    let mut idents = clone_rules(&g.idents);
    let mut vi = clone_rules(&v.idents);
    let ghost i1 = idents@;
    let ghost i2 = vi@;
    idents.append(&mut vi);
    let mut drops = clone_strings(&g.drop_attrs_list);
    let mut vd = clone_strings(&v.drop_attrs_list);
    let ghost d1 = drops@;
    let ghost d2 = vd@;
    drops.append(&mut vd);
    let mut repls = clone_repls(&g.replace_features);
    let mut vr = clone_repls(&v.replace_features);
    let ghost r1 = repls@;
    let ghost r2 = vr@;
    repls.append(&mut vr);
    let mut inner = clone_attrs(&g.inner_attrs);
    let mut vin = clone_attrs(&v.inner_attrs);
    let ghost n1 = inner@;
    let ghost n2 = vin@;
    inner.append(&mut vin);
    let mut outer = clone_attrs(&g.outer_attrs);
    let mut vout = clone_attrs(&v.outer_attrs);
    let ghost o1 = outer@;
    let ghost o2 = vout@;
    outer.append(&mut vout);
    proof {
        crate::params::lemma_rules_dv(idents@);
        crate::params::lemma_rules_dv(i1);
        crate::params::lemma_rules_dv(i2);
        assert(rules_dv(idents@) =~= rules_dv(i1) + rules_dv(i2));
        crate::ast::lemma_strings_dv(drops@);
        crate::ast::lemma_strings_dv(d1);
        crate::ast::lemma_strings_dv(d2);
        assert(crate::ast::strings_dv(drops@) =~= crate::ast::strings_dv(d1)
            + crate::ast::strings_dv(d2));
        crate::params::lemma_repls_dv(repls@);
        crate::params::lemma_repls_dv(r1);
        crate::params::lemma_repls_dv(r2);
        assert(repls_dv(repls@) =~= repls_dv(r1) + repls_dv(r2));
        lemma_attrs_dv(inner@);
        lemma_attrs_dv(n1);
        lemma_attrs_dv(n2);
        assert(attrs_dv(inner@) =~= attrs_dv(n1) + attrs_dv(n2));
        lemma_attrs_dv(outer@);
        lemma_attrs_dv(o1);
        lemma_attrs_dv(o2);
        assert(attrs_dv(outer@) =~= attrs_dv(o1) + attrs_dv(o2));
    }
    MacroParameters {
        mode: v.mode,
        prefix,
        key: Option::Some(clone_string(&v.key)),
        keep_self: g.keep_self || v.keep_self,
        self_name: crate::ast::clone_opt_string(&v.self_name),
        send,
        condition: (match &v.condition {
            Option::Some(c) => Option::Some(clone_metas(c)),
            Option::None => Option::None,
        }),
        idents,
        drop_attrs_list: drops,
        replace_features: repls,
        inner_attrs: inner,
        outer_attrs: outer,
        recursive_asyncness_removal: true,
    }
}

fn item_name(i: &Item) -> (r: Option<(String, bool)>)
    ensures
        (match r {
            Option::Some(p) => spec_item_name(item_dv(*i)) == Option::Some((p.0@, p.1)),
            Option::None => spec_item_name(item_dv(*i)) is None,
        }),
{
    match i {
        Item::Fn(f) => Option::Some((clone_string(&f.sig.ident), true)),
        Item::Struct { ident, .. } => Option::Some((clone_string(ident), false)),
        Item::Trait { ident, .. } => Option::Some((clone_string(ident), false)),
        Item::Mod { ident, .. } => Option::Some((clone_string(ident), true)),
        Item::Impl { .. } => Option::None,
        Item::Use { .. } => Option::None,
    }
}

/// Extend the merged parameters with the implicit rule for the annotated
/// declaration's own name.
fn env_for(g: &GlobalParams, v: &VariantSpec, i: &Item) -> (r: MacroParameters)
    ensures
        params_dv(r) == spec_env_for(global_dv(*g), variant_dv(*v), item_dv(*i)),
{
    let mut env = merge(g, v);
    let ghost env0 = params_dv(env);
    let extra: Option<IdentRule> = match item_name(i) {
        Option::None => Option::None,
        Option::Some((name, snake)) => {
            if env.keep_self {
                Option::None
            } else {
                match &env.self_name {
                    Option::Some(sn) => {
                        let mut ovs: Vec<IdentOverride> = Vec::new();
                        match &env.key {
                            Option::Some(k) => {
                                ovs.push(
                                    IdentOverride {
                                        key: clone_string(k),
                                        name: Option::Some(clone_string(sn)),
                                    },
                                );
                                proof {
                                    crate::params::lemma_overrides_dv(ovs@);
                                    assert(overrides_dv(ovs@) =~= seq![
                                        SpecIdentOverride { key: k@, name: Option::Some(sn@) },
                                    ]);
                                }
                            },
                            Option::None => {
                                proof {
                                    assert(overrides_dv(ovs@) =~= Seq::<
                                        SpecIdentOverride,
                                    >::empty());
                                }
                            },
                        }
                        Option::Some(
                            IdentRule {
                                ident: name,
                                keep: false,
                                use_mode: false,
                                snake,
                                overrides: ovs,
                            },
                        )
                    },
                    Option::None => {
                        if env.idents_get(&name).is_none() {
                            let r = IdentRule {
                                ident: name,
                                keep: false,
                                use_mode: false,
                                snake,
                                overrides: Vec::new(),
                            };
                            proof {
                                assert(overrides_dv(r.overrides@) =~= Seq::<
                                    SpecIdentOverride,
                                >::empty());
                            }
                            Option::Some(r)
                        } else {
                            Option::None
                        }
                    },
                }
            }
        },
    };
    match extra {
        Option::Some(rule) => {
            proof {
                assert(spec_self_rules(env0, item_dv(*i)) =~= seq![rule_dv(rule)]);
            }
            let ghost pre = env.idents@;
            env.idents.push(rule);
            proof {
                assert(env.idents@.drop_last() =~= pre);
                assert(rules_dv(env.idents@) =~= rules_dv(pre).push(rule_dv(rule)));
                assert(rules_dv(env.idents@) =~= env0.idents + seq![rule_dv(rule)]);
            }
            env
        },
        Option::None => {
            proof {
                assert(env0.idents + Seq::<SpecIdentRule>::empty() =~= env0.idents);
            }
            env
        },
    }
}

fn keys_contain(vs: &Vec<VariantSpec>, k: &String, n: usize) -> (r: bool)
    requires
        n <= vs@.len(),
    ensures
        r == spec_keys_contain(variants_dv(vs@.take(n as int)), k@),
    decreases n,
{
    if n == 0 {
        proof {
            assert(vs@.take(0) =~= Seq::<VariantSpec>::empty());
        }
        false
    } else {
        proof {
            crate::params::lemma_variants_dv(vs@.take(n as int));
            crate::params::lemma_variants_dv(vs@.take(n as int - 1));
            assert(variants_dv(vs@.take(n as int)).drop_last() =~= variants_dv(
                vs@.take(n as int - 1),
            ));
        }
        if string_eq(&vs[n - 1].key, k) {
            true
        } else {
            keys_contain(vs, k, n - 1)
        }
    }
}

fn first_dup(vs: &Vec<VariantSpec>, n: usize) -> (r: Option<String>)
    requires
        n <= vs@.len(),
    ensures
        (match r {
            Option::Some(k) => spec_first_dup(variants_dv(vs@.take(n as int))) == Option::Some(
                k@,
            ),
            Option::None => spec_first_dup(variants_dv(vs@.take(n as int))) is None,
        }),
    decreases n,
{
    if n == 0 {
        proof {
            assert(vs@.take(0) =~= Seq::<VariantSpec>::empty());
        }
        Option::None
    } else {
        proof {
            crate::params::lemma_variants_dv(vs@.take(n as int));
            crate::params::lemma_variants_dv(vs@.take(n as int - 1));
            assert(variants_dv(vs@.take(n as int)).drop_last() =~= variants_dv(
                vs@.take(n as int - 1),
            ));
        }
        match first_dup(vs, n - 1) {
            Option::Some(k) => Option::Some(k),
            Option::None => {
                if keys_contain(vs, &vs[n - 1].key, n - 1) {
                    Option::Some(clone_string(&vs[n - 1].key))
                } else {
                    Option::None
                }
            },
        }
    }
}

fn is_marker(a: &Attr, prefix: &String, word: &str) -> (r: bool)
    ensures
        r == spec_is_marker(attr_dv(*a), prefix@, word@),
{
    proof {
        crate::ast::lemma_strings_dv(a.path@);
    }
    a.path.len() == 2 && string_eq(&a.path[0], prefix) && is_word(&a.path[1], word)
}

fn has_remove(attrs: &Vec<Attr>, prefix: &String, n: usize) -> (r: bool)
    requires
        n <= attrs@.len(),
    ensures
        r == spec_has_remove(attrs_dv(attrs@.take(n as int)), prefix@),
    decreases n,
{
    if n == 0 {
        proof {
            assert(attrs@.take(0) =~= Seq::<Attr>::empty());
        }
        false
    } else {
        proof {
            lemma_attrs_dv(attrs@.take(n as int));
            lemma_attrs_dv(attrs@.take(n as int - 1));
            assert(attrs_dv(attrs@.take(n as int)).drop_last() =~= attrs_dv(
                attrs@.take(n as int - 1),
            ));
        }
        if is_marker(&attrs[n - 1], prefix, "remove") {
            true
        } else {
            has_remove(attrs, prefix, n - 1)
        }
    }
}

fn strip_noop(mut attrs: Vec<Attr>, prefix: &String) -> (r: Vec<Attr>)
    ensures
        attrs_dv(r@) == spec_strip_noop(attrs_dv(attrs@), prefix@),
    decreases attrs@.len(),
{
    if attrs.len() == 0 {
        attrs
    } else {
        proof {
            assert(attrs_dv(attrs@).drop_last() =~= attrs_dv(attrs@.drop_last()));
            assert(attrs_dv(attrs@).last() == attr_dv(attrs@.last()));
        }
        let last = attrs.pop().unwrap();
        let mut prev = strip_noop(attrs, prefix);
        if is_marker(&last, prefix, "noop") {
            prev
        } else {
            let ghost pp = prev@;
            prev.push(last);
            proof {
                assert(prev@.drop_last() =~= pp);
                assert(prev@.last() == last);
            }
            prev
        }
    }
}

} // verus!

verus! {

fn erase_fields(mut v: Vec<crate::ast::Field>, prefix: &String) -> (r: Vec<crate::ast::Field>)
    ensures
        crate::ast::fields_dv(r@) == spec_erase_fields(crate::ast::fields_dv(v@), prefix@),
    decreases v@.len(),
{
    if v.len() == 0 {
        v
    } else {
        proof {
            assert(crate::ast::fields_dv(v@).drop_last() =~= crate::ast::fields_dv(
                v@.drop_last(),
            ));
            assert(crate::ast::fields_dv(v@).last() == crate::ast::field_dv(v@.last()));
        }
        let last = v.pop().unwrap();
        let mut prev = erase_fields(v, prefix);
        proof {
            assert(last.attrs@.take(last.attrs@.len() as int) =~= last.attrs@);
        }
        if has_remove(&last.attrs, prefix, last.attrs.len()) {
            prev
        } else {
            let crate::ast::Field { attrs, ident, ty } = last;
            let f2 = crate::ast::Field { attrs: strip_noop(attrs, prefix), ident, ty };
            let ghost pp = prev@;
            prev.push(f2);
            proof {
                assert(prev@.drop_last() =~= pp);
                assert(prev@.last() == f2);
            }
            prev
        }
    }
}

fn erase_methods(mut v: Vec<crate::ast::TraitMethod>, prefix: &String) -> (r: Vec<
    crate::ast::TraitMethod,
>)
    ensures
        crate::ast::methods_dv(r@) == spec_erase_methods(crate::ast::methods_dv(v@), prefix@),
    decreases v@.len(),
{
    if v.len() == 0 {
        v
    } else {
        proof {
            assert(crate::ast::methods_dv(v@).drop_last() =~= crate::ast::methods_dv(
                v@.drop_last(),
            ));
            assert(crate::ast::methods_dv(v@).last() == crate::ast::method_dv(v@.last()));
        }
        let last = v.pop().unwrap();
        let mut prev = erase_methods(v, prefix);
        proof {
            assert(last.attrs@.take(last.attrs@.len() as int) =~= last.attrs@);
        }
        if has_remove(&last.attrs, prefix, last.attrs.len()) {
            prev
        } else {
            let crate::ast::TraitMethod { attrs, sig, body } = last;
            let m2 = crate::ast::TraitMethod { attrs: strip_noop(attrs, prefix), sig, body };
            proof {
                let lm = crate::ast::method_dv(last);
                assert(crate::ast::method_dv(m2).sig == lm.sig);
                assert(crate::ast::method_dv(m2).body == lm.body);
                assert(crate::ast::method_dv(m2).attrs == spec_strip_noop(lm.attrs, prefix@));
                assert(crate::ast::method_dv(m2) == (SpecTraitMethod {
                    attrs: spec_strip_noop(lm.attrs, prefix@),
                    ..lm
                }));
            }
            let ghost pp = prev@;
            prev.push(m2);
            proof {
                assert(prev@.drop_last() =~= pp);
                assert(prev@.last() == m2);
            }
            prev
        }
    }
}

fn erase_fndefs(mut v: Vec<crate::ast::FnDef>, prefix: &String) -> (r: Vec<crate::ast::FnDef>)
    ensures
        crate::ast::fndefs_dv(r@) == spec_erase_fndefs(crate::ast::fndefs_dv(v@), prefix@),
    decreases v@.len(),
{
    if v.len() == 0 {
        v
    } else {
        proof {
            assert(crate::ast::fndefs_dv(v@).drop_last() =~= crate::ast::fndefs_dv(
                v@.drop_last(),
            ));
            assert(crate::ast::fndefs_dv(v@).last() == crate::ast::fndef_dv(v@.last()));
        }
        let last = v.pop().unwrap();
        let mut prev = erase_fndefs(v, prefix);
        proof {
            assert(last.attrs@.take(last.attrs@.len() as int) =~= last.attrs@);
        }
        if has_remove(&last.attrs, prefix, last.attrs.len()) {
            prev
        } else {
            let crate::ast::FnDef { attrs, sig, body } = last;
            let m2 = crate::ast::FnDef { attrs: strip_noop(attrs, prefix), sig, body };
            proof {
                let lm = crate::ast::fndef_dv(last);
                assert(crate::ast::fndef_dv(m2).sig == lm.sig);
                assert(crate::ast::fndef_dv(m2).body == lm.body);
                assert(crate::ast::fndef_dv(m2).attrs == spec_strip_noop(lm.attrs, prefix@));
                assert(crate::ast::fndef_dv(m2) == (SpecFnDef {
                    attrs: spec_strip_noop(lm.attrs, prefix@),
                    ..lm
                }));
            }
            let ghost pp = prev@;
            prev.push(m2);
            proof {
                assert(prev@.drop_last() =~= pp);
                assert(prev@.last() == m2);
            }
            prev
        }
    }
}

/// Erase one declaration; `None` when the declaration itself carries the
/// removal marker.
pub fn erase_item(i: Item, prefix: &String) -> (r: Option<Item>)
    ensures
        (match r {
            Option::Some(i2) => spec_erase_item(item_dv(i), prefix@) == Option::Some(item_dv(i2)),
            Option::None => spec_erase_item(item_dv(i), prefix@) is None,
        }),
    decreases i, 1int,
{
    match i {
        Item::Fn(f) => {
            proof {
                assert(f.attrs@.take(f.attrs@.len() as int) =~= f.attrs@);
            }
            if has_remove(&f.attrs, prefix, f.attrs.len()) {
                Option::None
            } else {
                let crate::ast::FnDef { attrs, sig, body } = f;
                Option::Some(
                    Item::Fn(crate::ast::FnDef { attrs: strip_noop(attrs, prefix), sig, body }),
                )
            }
        },
        Item::Struct { attrs, ident, fields } => {
            proof {
                assert(attrs@.take(attrs@.len() as int) =~= attrs@);
            }
            if has_remove(&attrs, prefix, attrs.len()) {
                Option::None
            } else {
                Option::Some(
                    Item::Struct {
                        attrs: strip_noop(attrs, prefix),
                        ident,
                        fields: erase_fields(fields, prefix),
                    },
                )
            }
        },
        Item::Trait { attrs, ident, methods } => {
            proof {
                assert(attrs@.take(attrs@.len() as int) =~= attrs@);
            }
            if has_remove(&attrs, prefix, attrs.len()) {
                Option::None
            } else {
                Option::Some(
                    Item::Trait {
                        attrs: strip_noop(attrs, prefix),
                        ident,
                        methods: erase_methods(methods, prefix),
                    },
                )
            }
        },
        Item::Impl { attrs, trait_path, self_ty, methods } => {
            proof {
                assert(attrs@.take(attrs@.len() as int) =~= attrs@);
            }
            if has_remove(&attrs, prefix, attrs.len()) {
                Option::None
            } else {
                Option::Some(
                    Item::Impl {
                        attrs: strip_noop(attrs, prefix),
                        trait_path,
                        self_ty,
                        methods: erase_fndefs(methods, prefix),
                    },
                )
            }
        },
        Item::Use { attrs, tree } => {
            proof {
                assert(attrs@.take(attrs@.len() as int) =~= attrs@);
            }
            if has_remove(&attrs, prefix, attrs.len()) {
                Option::None
            } else {
                Option::Some(Item::Use { attrs: strip_noop(attrs, prefix), tree })
            }
        },
        Item::Mod { attrs, ident, items } => {
            proof {
                assert(attrs@.take(attrs@.len() as int) =~= attrs@);
            }
            if has_remove(&attrs, prefix, attrs.len()) {
                Option::None
            } else {
                Option::Some(
                    Item::Mod {
                        attrs: strip_noop(attrs, prefix),
                        ident,
                        items: erase_items(items, prefix),
                    },
                )
            }
        },
    }
}

fn erase_items(mut v: Vec<Item>, prefix: &String) -> (r: Vec<Item>)
    ensures
        items_dv(r@) == spec_erase_items(items_dv(v@), prefix@),
    decreases v@, 2int,
{
    if v.len() == 0 {
        v
    } else {
        proof {
            assert(items_dv(v@).drop_last() =~= items_dv(v@.drop_last()));
            assert(items_dv(v@).last() == item_dv(v@.last()));
        }
        let last = v.pop().unwrap();
        let mut prev = erase_items(v, prefix);
        match erase_item(last, prefix) {
            Option::Some(it) => {
                let ghost pp = prev@;
                prev.push(it);
                proof {
                    assert(prev@.drop_last() =~= pp);
                    assert(prev@.last() == it);
                }
                prev
            },
            Option::None => prev,
        }
    }
}

fn item_attrs_taken(i: Item) -> (r: (Item, Vec<Attr>))
    ensures
        item_dv(r.0) == spec_item_with_attrs(item_dv(i), Seq::empty()),
        attrs_dv(r.1@) == spec_item_attrs(item_dv(i)),
{
    let empty: Vec<Attr> = Vec::new();
    proof {
        assert(attrs_dv(empty@) =~= Seq::<SpecAttr>::empty());
    }
    match i {
        Item::Fn(f) => {
            let crate::ast::FnDef { attrs, sig, body } = f;
            (Item::Fn(crate::ast::FnDef { attrs: empty, sig, body }), attrs)
        },
        Item::Struct { attrs, ident, fields } => (
            Item::Struct { attrs: empty, ident, fields },
            attrs,
        ),
        Item::Trait { attrs, ident, methods } => (
            Item::Trait { attrs: empty, ident, methods },
            attrs,
        ),
        Item::Impl { attrs, trait_path, self_ty, methods } => (
            Item::Impl { attrs: empty, trait_path, self_ty, methods },
            attrs,
        ),
        Item::Use { attrs, tree } => (Item::Use { attrs: empty, tree }, attrs),
        Item::Mod { attrs, ident, items } => (Item::Mod { attrs: empty, ident, items }, attrs),
    }
}

fn item_with_attrs(i: Item, a: Vec<Attr>) -> (r: Item)
    ensures
        item_dv(r) == spec_item_with_attrs(item_dv(i), attrs_dv(a@)),
{
    match i {
        Item::Fn(f) => {
            let crate::ast::FnDef { attrs: _, sig, body } = f;
            Item::Fn(crate::ast::FnDef { attrs: a, sig, body })
        },
        Item::Struct { attrs: _, ident, fields } => Item::Struct { attrs: a, ident, fields },
        Item::Trait { attrs: _, ident, methods } => Item::Trait { attrs: a, ident, methods },
        Item::Impl { attrs: _, trait_path, self_ty, methods } => Item::Impl {
            attrs: a,
            trait_path,
            self_ty,
            methods,
        },
        Item::Use { attrs: _, tree } => Item::Use { attrs: a, tree },
        Item::Mod { attrs: _, ident, items } => Item::Mod { attrs: a, ident, items },
    }
}

/// Assemble one emitted variant's attribute list.
fn variant_attrs(env: &MacroParameters, own: Vec<Attr>) -> (r: Vec<Attr>)
    ensures
        attrs_dv(r@) == spec_variant_attrs(params_dv(*env), attrs_dv(own@)),
{
    let mut r = clone_attrs(&env.outer_attrs);
    let ghost a1 = r@;
    match &env.condition {
        Option::Some(metas) => {
            let mut path: Vec<String> = Vec::new();
            path.push(String::from_str("cfg"));
            let cfg = Attr { path, args: clone_metas(metas) };
            proof {
                crate::ast::lemma_strings_dv(cfg.path@);
                assert(crate::ast::strings_dv(cfg.path@) =~= seq!["cfg"@]);
            }
            let ghost pre = r@;
            r.push(cfg);
            proof {
                assert(r@.drop_last() =~= pre);
            }
        },
        Option::None => {},
    }
    let ghost a2 = r@;
    let mut inner = clone_attrs(&env.inner_attrs);
    let ghost i1 = inner@;
    r.append(&mut inner);
    let ghost a3 = r@;
    let mut own2 = own;
    let ghost o1 = own2@;
    r.append(&mut own2);
    proof {
        lemma_attrs_dv(r@);
        lemma_attrs_dv(a1);
        lemma_attrs_dv(a2);
        lemma_attrs_dv(a3);
        lemma_attrs_dv(i1);
        lemma_attrs_dv(o1);
        assert(attrs_dv(r@) =~= spec_variant_attrs(params_dv(*env), attrs_dv(o1)));
    }
    r
}

/// One variant's contribution to the output.
fn expand_variant(g: &GlobalParams, v: &VariantSpec, item: &Item) -> (r: Result<
    Vec<Item>,
    MacError,
>)
    ensures
        (match r {
            Result::Ok(o) => spec_expand_variant(global_dv(*g), variant_dv(*v), item_dv(*item))
                == Result::<Seq<SpecItem>, SpecMacError>::Ok(items_dv(o@)),
            Result::Err(e) => spec_expand_variant(global_dv(*g), variant_dv(*v), item_dv(*item))
                == Result::<Seq<SpecItem>, SpecMacError>::Err(err_dv(e)),
        }),
{
    let mut out: Vec<Item> = Vec::new();
    proof {
        assert(items_dv(out@) =~= Seq::<SpecItem>::empty());
    }
    if v.disable {
        return Result::Ok(out);
    }
    let env = env_for(g, v, item);
    let prefix = clone_string(&env.prefix);
    let visitor = AsyncAwaitVisitor::new(env, v.mode);
    proof {
        assert(visitor.env() == spec_env_for(global_dv(*g), variant_dv(*v), item_dv(*item)));
    }
    let copy = clone_item(item);
    let scopes: Vec<Vec<ScopeEntry>> = Vec::new();
    proof {
        assert(scopes_dv(scopes@) =~= Seq::<Seq<crate::rewrite::SpecScopeEntry>>::empty());
    }
    let rewritten = match visitor.process_item(copy, &scopes) {
        Result::Ok(x) => x,
        Result::Err(e) => {
            return Result::Err(e);
        },
    };
    match erase_item(rewritten, &prefix) {
        Option::None => Result::Ok(out),
        Option::Some(erased) => {
            let (bare, own) = item_attrs_taken(erased);
            let ghost own0 = own@;
            let final_attrs = variant_attrs(&visitor.params, own);
            let emitted = item_with_attrs(bare, final_attrs);
            let ghost pre = out@;
            out.push(emitted);
            proof {
                assert(out@.drop_last() =~= pre);
                assert(items_dv(out@) =~= seq![item_dv(emitted)]);
            }
            Result::Ok(out)
        },
    }
}

fn expand_upto(g: &GlobalParams, item: &Item, n: usize) -> (r: Result<Vec<Item>, MacError>)
    requires
        n <= g.variants@.len(),
    ensures
        (match r {
            Result::Ok(o) => spec_expand_upto(global_dv(*g), item_dv(*item), n as int)
                == Result::<Seq<SpecItem>, SpecMacError>::Ok(items_dv(o@)),
            Result::Err(e) => spec_expand_upto(global_dv(*g), item_dv(*item), n as int)
                == Result::<Seq<SpecItem>, SpecMacError>::Err(err_dv(e)),
        }),
    decreases n,
{
    if n == 0 {
        let out: Vec<Item> = Vec::new();
        proof {
            assert(items_dv(out@) =~= Seq::<SpecItem>::empty());
        }
        Result::Ok(out)
    } else {
        proof {
            crate::params::lemma_variants_dv(g.variants@);
        }
        let mut prev = match expand_upto(g, item, n - 1) {
            Result::Ok(x) => x,
            Result::Err(e) => {
                return Result::Err(e);
            },
        };
        let mut one = match expand_variant(g, &g.variants[n - 1], item) {
            Result::Ok(x) => x,
            Result::Err(e) => {
                return Result::Err(e);
            },
        };
        let ghost p1 = prev@;
        let ghost o1 = one@;
        prev.append(&mut one);
        proof {
            crate::ast::lemma_items_dv(prev@);
            crate::ast::lemma_items_dv(p1);
            crate::ast::lemma_items_dv(o1);
            assert(items_dv(prev@) =~= items_dv(p1) + items_dv(o1));
        }
        Result::Ok(prev)
    }
}

/// Expand one annotated declaration into its variants.  With `disable` the
/// declaration is returned unchanged; a duplicate variant key, a malformed
/// parameter, a malformed directive argument, or an unexpectedly shaped
/// where-clause predicate is a single diagnostic and nothing is emitted.
#[verifier::rlimit(100)]
pub fn maybe(args: &Vec<Meta>, item: &Item) -> (r: Result<Vec<Item>, MacError>)
    ensures
        (match r {
            Result::Ok(o) => spec_maybe(args@, item_dv(*item)) == Result::<
                Seq<SpecItem>,
                SpecMacError,
            >::Ok(items_dv(o@)),
            Result::Err(e) => spec_maybe(args@, item_dv(*item)) == Result::<
                Seq<SpecItem>,
                SpecMacError,
            >::Err(err_dv(e)),
        }),
{
    let g = match parse_global(args) {
        Result::Ok(x) => x,
        Result::Err(e) => {
            return Result::Err(e);
        },
    };
    if g.disable {
        let mut out: Vec<Item> = Vec::new();
        out.push(clone_item(item));
        proof {
            crate::ast::lemma_items_dv(out@);
            assert(items_dv(out@) =~= seq![item_dv(*item)]);
        }
        return Result::Ok(out);
    }
    proof {
        assert(g.variants@.take(g.variants@.len() as int) =~= g.variants@);
        crate::params::lemma_variants_dv(g.variants@);
    }
    match first_dup(&g.variants, g.variants.len()) {
        Option::Some(k) => Result::Err(MacError::DuplicateKey(k)),
        Option::None => expand_upto(&g, item, g.variants.len()),
    }
}

// ---------------------------------------------------------------------------
// The terminal and pass-through entry points.
// ---------------------------------------------------------------------------

/// Marks conditional content kept only in the named variant; before
/// resolution it leaves its content intact.
pub fn only_if(item: Item) -> (r: Item)
    ensures
        item_dv(r) == item_dv(item),
{
    item
}

/// Marks conditional content removed from the named variant; before
/// resolution it leaves its content intact.
pub fn remove_if(item: Item) -> (r: Item)
    ensures
        item_dv(r) == item_dv(item),
{
    item
}

/// The resolved no-op marker: leaves its content intact.
pub fn noop(item: Item) -> (r: Item)
    ensures
        item_dv(r) == item_dv(item),
{
    item
}

/// The resolved removal marker: removes its content entirely.
pub fn remove(item: Item) -> (r: Vec<Item>)
    ensures
        items_dv(r@) == Seq::<SpecItem>::empty(),
{
    let _ = item;
    let out: Vec<Item> = Vec::new();
    proof {
        assert(items_dv(out@) =~= Seq::<SpecItem>::empty());
    }
    out
}

} // verus!
