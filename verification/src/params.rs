//! The declarative parameter model: identifier rules, variant specifications,
//! and the merged per-variant `MacroParameters` that guides one rewrite.

use vstd::prelude::*;

use crate::ast::{Attr, Meta, SpecAttr, SpecMeta, attrs_dv, metas_dv, strings_dv};

verus! {

// ---------------------------------------------------------------------------
// Errors.
// ---------------------------------------------------------------------------

/// A diagnostic.  Each variant carries the offending name or literal, so the
/// caller can point at the smallest token that caused the failure.
#[derive(Debug, PartialEq, Eq)]
pub enum MacError {
    /// An unrecognized named parameter appeared in a parameter list.
    UnknownParam(String),
    /// A recognized parameter's value has the wrong shape.
    WrongShape(String),
    /// Two variants declare the same key.
    DuplicateKey(String),
    /// A conditional directive has the wrong number of arguments.
    DirectiveArity(String),
    /// A conditional directive argument is not a name, string, or `key = "..."`.
    DirectiveArg(String),
    /// A where-clause predicate bounds a type the substitution pass cannot
    /// inspect.
    UnexpectedBound(String),
    /// The arguments of a recognized diagnostic macro are not an expression
    /// list.
    MacroArgs(String),
}

pub enum SpecMacError {
    UnknownParam(Seq<char>),
    WrongShape(Seq<char>),
    DuplicateKey(Seq<char>),
    DirectiveArity(Seq<char>),
    DirectiveArg(Seq<char>),
    UnexpectedBound(Seq<char>),
    MacroArgs(Seq<char>),
}

pub open spec fn err_dv(e: MacError) -> SpecMacError {
    match e {
        MacError::UnknownParam(s) => SpecMacError::UnknownParam(s@),
        MacError::WrongShape(s) => SpecMacError::WrongShape(s@),
        MacError::DuplicateKey(s) => SpecMacError::DuplicateKey(s@),
        MacError::DirectiveArity(s) => SpecMacError::DirectiveArity(s@),
        MacError::DirectiveArg(s) => SpecMacError::DirectiveArg(s@),
        MacError::UnexpectedBound(s) => SpecMacError::UnexpectedBound(s@),
        MacError::MacroArgs(s) => SpecMacError::MacroArgs(s@),
    }
}

// ---------------------------------------------------------------------------
// Conversion mode.
// ---------------------------------------------------------------------------

/// Whether a variant strips suspension markers (blocking form) or keeps them
/// (suspending form).
#[derive(Debug, Clone, Copy, PartialEq, Eq, Structural)]
pub enum ConvertMode {
    IntoSync,
    IntoAsync,
}

// ---------------------------------------------------------------------------
// Identifier rules.
// ---------------------------------------------------------------------------

/// An explicit per-variant name for one identifier rule.  `name == None`
/// records that the identifier is not renamed in that variant.
#[derive(Debug, PartialEq, Eq)]
pub struct IdentOverride {
    pub key: String,
    pub name: Option<String>,
}

/// How one identifier is renamed per variant.
#[derive(Debug, PartialEq, Eq)]
pub struct IdentRule {
    /// The base name the rule applies to.
    pub ident: String,
    /// Never rename this identifier.
    pub keep: bool,
    /// In import lists, rename through an alias binding instead of in place.
    pub use_mode: bool,
    /// Use the function/module suffix scheme (`_sync`/`_async`) instead of
    /// the type scheme (`Sync`/`Async`).
    pub snake: bool,
    /// Explicit per-variant overrides; a later entry shadows an earlier one.
    pub overrides: Vec<IdentOverride>,
}

pub struct SpecIdentOverride {
    pub key: Seq<char>,
    pub name: Option<Seq<char>>,
}

pub struct SpecIdentRule {
    pub ident: Seq<char>,
    pub keep: bool,
    pub use_mode: bool,
    pub snake: bool,
    pub overrides: Seq<SpecIdentOverride>,
}

pub open spec fn override_dv(o: IdentOverride) -> SpecIdentOverride {
    SpecIdentOverride {
        key: o.key@,
        name: match o.name {
            Option::Some(n) => Option::Some(n@),
            Option::None => Option::None,
        },
    }
}

pub open spec fn overrides_dv(s: Seq<IdentOverride>) -> Seq<SpecIdentOverride>
    decreases s,
{
    if s.len() == 0 {
        Seq::empty()
    } else {
        overrides_dv(s.drop_last()).push(override_dv(s.last()))
    }
}

pub open spec fn rule_dv(r: IdentRule) -> SpecIdentRule {
    SpecIdentRule {
        ident: r.ident@,
        keep: r.keep,
        use_mode: r.use_mode,
        snake: r.snake,
        overrides: overrides_dv(r.overrides@),
    }
}

pub open spec fn rules_dv(s: Seq<IdentRule>) -> Seq<SpecIdentRule>
    decreases s,
{
    if s.len() == 0 {
        Seq::empty()
    } else {
        rules_dv(s.drop_last()).push(rule_dv(s.last()))
    }
}

// ---------------------------------------------------------------------------
// Feature replacements.
// ---------------------------------------------------------------------------

/// One `replace_feature("old", "new")` entry.
#[derive(Debug, PartialEq, Eq)]
pub struct FeatureRepl {
    pub old_name: String,
    pub new_name: String,
}

pub struct SpecFeatureRepl {
    pub old_name: Seq<char>,
    pub new_name: Seq<char>,
}

pub open spec fn repl_dv(r: FeatureRepl) -> SpecFeatureRepl {
    SpecFeatureRepl { old_name: r.old_name@, new_name: r.new_name@ }
}

pub open spec fn repls_dv(s: Seq<FeatureRepl>) -> Seq<SpecFeatureRepl>
    decreases s,
{
    if s.len() == 0 {
        Seq::empty()
    } else {
        repls_dv(s.drop_last()).push(repl_dv(s.last()))
    }
}

// ---------------------------------------------------------------------------
// Variant specifications and merged parameters.
// ---------------------------------------------------------------------------

/// One declared variant, as written in the parameter list.
#[derive(Debug, PartialEq, Eq)]
pub struct VariantSpec {
    pub mode: ConvertMode,
    /// The variant's unique key; defaults to the block name (`sync`/`async`).
    pub key: String,
    /// Skip this variant entirely.
    pub disable: bool,
    pub keep_self: bool,
    /// Explicit name for the annotated declaration itself in this variant.
    pub self_name: Option<String>,
    /// Suspension-trait adapter marker: present with or without ordering
    /// sensitivity (`Send` vs `?Send`).
    pub send: Option<bool>,
    /// The selection condition: the argument list of the emitted `cfg`
    /// wrapper, copied verbatim, never interpreted.
    pub condition: Option<Vec<Meta>>,
    pub idents: Vec<IdentRule>,
    pub drop_attrs_list: Vec<String>,
    pub replace_features: Vec<FeatureRepl>,
    pub inner_attrs: Vec<Attr>,
    pub outer_attrs: Vec<Attr>,
    pub prefix: Option<String>,
}

pub struct SpecVariantSpec {
    pub mode: ConvertMode,
    pub key: Seq<char>,
    pub disable: bool,
    pub keep_self: bool,
    pub self_name: Option<Seq<char>>,
    pub send: Option<bool>,
    pub condition: Option<Seq<SpecMeta>>,
    pub idents: Seq<SpecIdentRule>,
    pub drop_attrs_list: Seq<Seq<char>>,
    pub replace_features: Seq<SpecFeatureRepl>,
    pub inner_attrs: Seq<SpecAttr>,
    pub outer_attrs: Seq<SpecAttr>,
    pub prefix: Option<Seq<char>>,
}

pub open spec fn opt_string_dv(s: Option<String>) -> Option<Seq<char>> {
    match s {
        Option::Some(x) => Option::Some(x@),
        Option::None => Option::None,
    }
}

pub open spec fn opt_metas_dv(s: Option<Vec<Meta>>) -> Option<Seq<SpecMeta>> {
    match s {
        Option::Some(x) => Option::Some(metas_dv(x@)),
        Option::None => Option::None,
    }
}

pub open spec fn variant_dv(v: VariantSpec) -> SpecVariantSpec {
    SpecVariantSpec {
        mode: v.mode,
        key: v.key@,
        disable: v.disable,
        keep_self: v.keep_self,
        self_name: opt_string_dv(v.self_name),
        send: v.send,
        condition: opt_metas_dv(v.condition),
        idents: rules_dv(v.idents@),
        drop_attrs_list: strings_dv(v.drop_attrs_list@),
        replace_features: repls_dv(v.replace_features@),
        inner_attrs: attrs_dv(v.inner_attrs@),
        outer_attrs: attrs_dv(v.outer_attrs@),
        prefix: opt_string_dv(v.prefix),
    }
}

pub open spec fn variants_dv(s: Seq<VariantSpec>) -> Seq<SpecVariantSpec>
    decreases s,
{
    if s.len() == 0 {
        Seq::empty()
    } else {
        variants_dv(s.drop_last()).push(variant_dv(s.last()))
    }
}

/// Settings declared at the outer level of the parameter list, shared by all
/// variants.
#[derive(Debug, PartialEq, Eq)]
pub struct GlobalParams {
    pub disable: bool,
    pub prefix: Option<String>,
    pub keep_self: bool,
    pub send: Option<bool>,
    pub idents: Vec<IdentRule>,
    pub drop_attrs_list: Vec<String>,
    pub replace_features: Vec<FeatureRepl>,
    pub inner_attrs: Vec<Attr>,
    pub outer_attrs: Vec<Attr>,
    pub variants: Vec<VariantSpec>,
}

pub struct SpecGlobalParams {
    pub disable: bool,
    pub prefix: Option<Seq<char>>,
    pub keep_self: bool,
    pub send: Option<bool>,
    pub idents: Seq<SpecIdentRule>,
    pub drop_attrs_list: Seq<Seq<char>>,
    pub replace_features: Seq<SpecFeatureRepl>,
    pub inner_attrs: Seq<SpecAttr>,
    pub outer_attrs: Seq<SpecAttr>,
    pub variants: Seq<SpecVariantSpec>,
}

pub open spec fn global_dv(g: GlobalParams) -> SpecGlobalParams {
    SpecGlobalParams {
        disable: g.disable,
        prefix: opt_string_dv(g.prefix),
        keep_self: g.keep_self,
        send: g.send,
        idents: rules_dv(g.idents@),
        drop_attrs_list: strings_dv(g.drop_attrs_list@),
        replace_features: repls_dv(g.replace_features@),
        inner_attrs: attrs_dv(g.inner_attrs@),
        outer_attrs: attrs_dv(g.outer_attrs@),
        variants: variants_dv(g.variants@),
    }
}

/// The effective parameters of one rewrite: the outer settings merged with
/// one variant's settings; variant-level entries are appended after the
/// outer ones, so they shadow them under the last-match lookups.
#[derive(Debug, PartialEq, Eq)]
pub struct MacroParameters {
    pub mode: ConvertMode,
    /// The attribute-path prefix recognized as this system's own directives.
    pub prefix: String,
    /// The current variant's key, used by the conditional directives.
    pub key: Option<String>,
    pub keep_self: bool,
    pub self_name: Option<String>,
    pub send: Option<bool>,
    pub condition: Option<Vec<Meta>>,
    pub idents: Vec<IdentRule>,
    pub drop_attrs_list: Vec<String>,
    pub replace_features: Vec<FeatureRepl>,
    pub inner_attrs: Vec<Attr>,
    pub outer_attrs: Vec<Attr>,
    /// Strip suspension markers from every nested declaration while
    /// converting to the blocking form.
    pub recursive_asyncness_removal: bool,
}

pub struct SpecMacroParameters {
    pub mode: ConvertMode,
    pub prefix: Seq<char>,
    pub key: Option<Seq<char>>,
    pub keep_self: bool,
    pub self_name: Option<Seq<char>>,
    pub send: Option<bool>,
    pub condition: Option<Seq<SpecMeta>>,
    pub idents: Seq<SpecIdentRule>,
    pub drop_attrs_list: Seq<Seq<char>>,
    pub replace_features: Seq<SpecFeatureRepl>,
    pub inner_attrs: Seq<SpecAttr>,
    pub outer_attrs: Seq<SpecAttr>,
    pub recursive_asyncness_removal: bool,
}

pub open spec fn params_dv(p: MacroParameters) -> SpecMacroParameters {
    SpecMacroParameters {
        mode: p.mode,
        prefix: p.prefix@,
        key: opt_string_dv(p.key),
        keep_self: p.keep_self,
        self_name: opt_string_dv(p.self_name),
        send: p.send,
        condition: opt_metas_dv(p.condition),
        idents: rules_dv(p.idents@),
        drop_attrs_list: strings_dv(p.drop_attrs_list@),
        replace_features: repls_dv(p.replace_features@),
        inner_attrs: attrs_dv(p.inner_attrs@),
        outer_attrs: attrs_dv(p.outer_attrs@),
        recursive_asyncness_removal: p.recursive_asyncness_removal,
    }
}

// ---------------------------------------------------------------------------
// Lookups over the merged parameters.
// ---------------------------------------------------------------------------

/// The rule for a base name: the last matching entry wins, so variant-level
/// rules shadow outer ones.
pub open spec fn spec_idents_get(rules: Seq<SpecIdentRule>, name: Seq<char>) -> Option<
    SpecIdentRule,
>
    decreases rules,
{
    if rules.len() == 0 {
        Option::None
    } else if rules.last().ident == name {
        Option::Some(rules.last())
    } else {
        spec_idents_get(rules.drop_last(), name)
    }
}

/// The override of a rule for a variant key: the last matching entry wins.
pub open spec fn spec_override_get(
    overrides: Seq<SpecIdentOverride>,
    key: Seq<char>,
) -> Option<SpecIdentOverride>
    decreases overrides,
{
    if overrides.len() == 0 {
        Option::None
    } else if overrides.last().key == key {
        Option::Some(overrides.last())
    } else {
        spec_override_get(overrides.drop_last(), key)
    }
}

pub open spec fn spec_drop_attrs_contains(names: Seq<Seq<char>>, name: Seq<char>) -> bool
    decreases names,
{
    if names.len() == 0 {
        false
    } else if names.last() == name {
        true
    } else {
        spec_drop_attrs_contains(names.drop_last(), name)
    }
}

/// The replacement of a feature name, if one is configured; the last
/// matching entry wins.
pub open spec fn spec_replace_features_get(
    repls: Seq<SpecFeatureRepl>,
    old_name: Seq<char>,
) -> Option<Seq<char>>
    decreases repls,
{
    if repls.len() == 0 {
        Option::None
    } else if repls.last().old_name == old_name {
        Option::Some(repls.last().new_name)
    } else {
        spec_replace_features_get(repls.drop_last(), old_name)
    }
}

/// The names of the built-in diagnostic and print-like macros whose
/// arguments are still parsed and rewritten as an expression list.
pub open spec fn spec_standard_macros() -> Seq<Seq<char>> {
    seq!["dbg"@, "print"@, "println"@, "assert"@, "assert_eq"@, "assert_ne"@]
}

pub open spec fn spec_is_standard_macro(name: Seq<char>) -> bool {
    spec_standard_macros().contains(name)
}

// ---------------------------------------------------------------------------
// Pointwise characterizations.
// ---------------------------------------------------------------------------

pub proof fn lemma_overrides_dv(s: Seq<IdentOverride>)
    ensures
        overrides_dv(s).len() == s.len(),
        forall|i: int| 0 <= i < s.len() ==> overrides_dv(s)[i] == override_dv(s[i]),
    decreases s,
{
    if s.len() > 0 {
        lemma_overrides_dv(s.drop_last());
    }
}

pub proof fn lemma_rules_dv(s: Seq<IdentRule>)
    ensures
        rules_dv(s).len() == s.len(),
        forall|i: int| 0 <= i < s.len() ==> rules_dv(s)[i] == rule_dv(s[i]),
    decreases s,
{
    if s.len() > 0 {
        lemma_rules_dv(s.drop_last());
    }
}

pub proof fn lemma_repls_dv(s: Seq<FeatureRepl>)
    ensures
        repls_dv(s).len() == s.len(),
        forall|i: int| 0 <= i < s.len() ==> repls_dv(s)[i] == repl_dv(s[i]),
    decreases s,
{
    if s.len() > 0 {
        lemma_repls_dv(s.drop_last());
    }
}

pub proof fn lemma_variants_dv(s: Seq<VariantSpec>)
    ensures
        variants_dv(s).len() == s.len(),
        forall|i: int| 0 <= i < s.len() ==> variants_dv(s)[i] == variant_dv(s[i]),
    decreases s,
{
    if s.len() > 0 {
        lemma_variants_dv(s.drop_last());
    }
}

} // verus!

verus! {

// ---------------------------------------------------------------------------
// Executable lookups.
// ---------------------------------------------------------------------------

fn idents_get_upto<'a>(rules: &'a Vec<IdentRule>, name: &String, n: usize) -> (r: Option<
    &'a IdentRule,
>)
    requires
        n <= rules@.len(),
    ensures
        match r {
            Option::Some(rule) => spec_idents_get(rules_dv(rules@.take(n as int)), name@)
                == Option::Some(rule_dv(*rule)),
            Option::None => spec_idents_get(rules_dv(rules@.take(n as int)), name@) is None,
        },
    decreases n,
{
    if n == 0 {
        proof {
            assert(rules@.take(0) =~= Seq::<IdentRule>::empty());
        }
        Option::None
    } else {
        proof {
            lemma_rules_dv(rules@.take(n as int));
            lemma_rules_dv(rules@.take(n as int - 1));
            assert(rules_dv(rules@.take(n as int)).drop_last() =~= rules_dv(
                rules@.take(n as int - 1),
            ));
        }
        if crate::ast::string_eq(&rules[n - 1].ident, name) {
            Option::Some(&rules[n - 1])
        } else {
            idents_get_upto(rules, name, n - 1)
        }
    }
}

fn strings_contains_upto(names: &Vec<String>, name: &String, n: usize) -> (r: bool)
    requires
        n <= names@.len(),
    ensures
        r == spec_drop_attrs_contains(strings_dv(names@.take(n as int)), name@),
    decreases n,
{
    if n == 0 {
        proof {
            assert(names@.take(0) =~= Seq::<String>::empty());
        }
        false
    } else {
        proof {
            crate::ast::lemma_strings_dv(names@.take(n as int));
            crate::ast::lemma_strings_dv(names@.take(n as int - 1));
            assert(strings_dv(names@.take(n as int)).drop_last() =~= strings_dv(
                names@.take(n as int - 1),
            ));
        }
        if crate::ast::string_eq(&names[n - 1], name) {
            true
        } else {
            strings_contains_upto(names, name, n - 1)
        }
    }
}

fn repls_get_upto<'a>(repls: &'a Vec<FeatureRepl>, old_name: &String, n: usize) -> (r: Option<
    &'a String,
>)
    requires
        n <= repls@.len(),
    ensures
        match r {
            Option::Some(nn) => spec_replace_features_get(
                repls_dv(repls@.take(n as int)),
                old_name@,
            ) == Option::Some(nn@),
            Option::None => spec_replace_features_get(
                repls_dv(repls@.take(n as int)),
                old_name@,
            ) is None,
        },
    decreases n,
{
    if n == 0 {
        proof {
            assert(repls@.take(0) =~= Seq::<FeatureRepl>::empty());
        }
        Option::None
    } else {
        proof {
            lemma_repls_dv(repls@.take(n as int));
            lemma_repls_dv(repls@.take(n as int - 1));
            assert(repls_dv(repls@.take(n as int)).drop_last() =~= repls_dv(
                repls@.take(n as int - 1),
            ));
        }
        if crate::ast::string_eq(&repls[n - 1].old_name, old_name) {
            Option::Some(&repls[n - 1].new_name)
        } else {
            repls_get_upto(repls, old_name, n - 1)
        }
    }
}

impl MacroParameters {
    pub open spec fn env(&self) -> SpecMacroParameters {
        params_dv(*self)
    }

    /// The rule configured for a base name, if any.
    pub fn idents_get<'a>(&'a self, name: &String) -> (r: Option<&'a IdentRule>)
        ensures
            match r {
                Option::Some(rule) => spec_idents_get(self.env().idents, name@) == Option::Some(
                    rule_dv(*rule),
                ),
                Option::None => spec_idents_get(self.env().idents, name@) is None,
            },
    {
        proof {
            assert(self.idents@.take(self.idents@.len() as int) =~= self.idents@);
        }
        idents_get_upto(&self.idents, name, self.idents.len())
    }

    /// Whether an attribute name is in the variant's drop list.
    pub fn drop_attrs_contains(&self, name: &String) -> (r: bool)
        ensures
            r == spec_drop_attrs_contains(self.env().drop_attrs_list, name@),
    {
        proof {
            assert(self.drop_attrs_list@.take(self.drop_attrs_list@.len() as int)
                =~= self.drop_attrs_list@);
        }
        strings_contains_upto(&self.drop_attrs_list, name, self.drop_attrs_list.len())
    }

    pub fn drop_attrs_is_empty(&self) -> (r: bool)
        ensures
            r == (self.env().drop_attrs_list.len() == 0),
    {
        proof {
            crate::ast::lemma_strings_dv(self.drop_attrs_list@);
        }
        self.drop_attrs_list.len() == 0
    }

    /// The replacement configured for a feature name, if any.
    pub fn replace_features_get<'a>(&'a self, old_name: &String) -> (r: Option<&'a String>)
        ensures
            match r {
                Option::Some(nn) => spec_replace_features_get(
                    self.env().replace_features,
                    old_name@,
                ) == Option::Some(nn@),
                Option::None => spec_replace_features_get(
                    self.env().replace_features,
                    old_name@,
                ) is None,
            },
    {
        proof {
            assert(self.replace_features@.take(self.replace_features@.len() as int)
                =~= self.replace_features@);
        }
        repls_get_upto(&self.replace_features, old_name, self.replace_features.len())
    }

    pub fn key_get<'a>(&'a self) -> (r: &'a Option<String>)
        ensures
            opt_string_dv(*r) == self.env().key,
    {
        &self.key
    }

    pub fn recursive_asyncness_removal_get(&self) -> (r: bool)
        ensures
            r == self.env().recursive_asyncness_removal,
    {
        self.recursive_asyncness_removal
    }

    pub fn send_get(&self) -> (r: Option<bool>)
        ensures
            r == self.env().send,
    {
        match self.send {
            Option::Some(b) => Option::Some(b),
            Option::None => Option::None,
        }
    }
}

/// Whether a macro name is one of the built-in diagnostic and print-like
/// macros whose arguments are recursed into.
pub fn is_standard_macro(name: &String) -> (r: bool)
    ensures
        r == spec_is_standard_macro(name@),
{
    let r = crate::ast::is_word(name, "dbg") || crate::ast::is_word(name, "print")
        || crate::ast::is_word(name, "println") || crate::ast::is_word(name, "assert")
        || crate::ast::is_word(name, "assert_eq") || crate::ast::is_word(name, "assert_ne");
    proof {
        if r {
            assert(spec_standard_macros().contains(name@)) by {
                if name@ == "dbg"@ {
                    assert(spec_standard_macros()[0] == name@);
                } else if name@ == "print"@ {
                    assert(spec_standard_macros()[1] == name@);
                } else if name@ == "println"@ {
                    assert(spec_standard_macros()[2] == name@);
                } else if name@ == "assert"@ {
                    assert(spec_standard_macros()[3] == name@);
                } else if name@ == "assert_eq"@ {
                    assert(spec_standard_macros()[4] == name@);
                } else {
                    assert(spec_standard_macros()[5] == name@);
                }
            }
        } else {
            assert(!spec_standard_macros().contains(name@)) by {
                assert(forall|i: int|
                    0 <= i < spec_standard_macros().len() ==> spec_standard_macros()[i]
                        != name@) by {
                    assert(spec_standard_macros()[0] == "dbg"@);
                    assert(spec_standard_macros()[1] == "print"@);
                    assert(spec_standard_macros()[2] == "println"@);
                    assert(spec_standard_macros()[3] == "assert"@);
                    assert(spec_standard_macros()[4] == "assert_eq"@);
                    assert(spec_standard_macros()[5] == "assert_ne"@);
                }
            }
        }
    }
    r
}

} // verus!
