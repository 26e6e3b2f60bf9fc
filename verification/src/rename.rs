//! The identifier rename engine: given a base name, a conversion mode and a
//! variant key, compute the variant-specific name.
//!
//! Resolution order: a `keep` rule returns the base name unchanged; an
//! explicit per-variant override wins over the default scheme; otherwise the
//! canonical suffix is appended, chosen by the rule's style flag and by the
//! variant key (or by the conversion mode when the key is not one of the two
//! canonical keys).

use vstd::prelude::*;

use crate::ast::{clone_string, is_word, string_eq};
use crate::params::{
    ConvertMode, IdentOverride, IdentRule, SpecIdentRule, opt_string_dv, overrides_dv,
    lemma_overrides_dv, override_dv, rule_dv, spec_override_get,
};

verus! {

/// Whether the canonical suffix for this variant is the blocking one.
/// The canonical keys pick their own suffix; any other key falls back to the
/// conversion mode.
pub open spec fn spec_word_is_sync(mode: ConvertMode, key: Option<Seq<char>>) -> bool {
    match key {
        Option::Some(k) => if k == "sync"@ {
            true
        } else if k == "async"@ {
            false
        } else {
            mode is IntoSync
        },
        Option::None => mode is IntoSync,
    }
}

/// The default suffix: `Sync`/`Async` for type-style rules, `_sync`/`_async`
/// for function- and module-style rules.
pub open spec fn spec_suffix(snake: bool, mode: ConvertMode, key: Option<Seq<char>>) -> Seq<
    char,
> {
    if spec_word_is_sync(mode, key) {
        if snake {
            "_sync"@
        } else {
            "Sync"@
        }
    } else {
        if snake {
            "_async"@
        } else {
            "Async"@
        }
    }
}

/// The variant-specific name of one identifier occurrence.
pub open spec fn spec_rename(
    rule: SpecIdentRule,
    base: Seq<char>,
    mode: ConvertMode,
    key: Option<Seq<char>>,
) -> Seq<char> {
    if rule.keep {
        base
    } else {
        match key {
            Option::Some(k) => match spec_override_get(rule.overrides, k) {
                Option::Some(ov) => match ov.name {
                    Option::Some(n) => n,
                    Option::None => base,
                },
                Option::None => base + spec_suffix(rule.snake, mode, key),
            },
            Option::None => base + spec_suffix(rule.snake, mode, key),
        }
    }
}

/// Index of the last override entry for `key` among the first `n` entries.
fn override_get_upto(v: &Vec<IdentOverride>, key: &String, n: usize) -> (r: Option<usize>)
    requires
        n <= v.len(),
    ensures
        match r {
            Option::Some(i) => i < n && spec_override_get(overrides_dv(v@.take(n as int)), key@)
                == Option::Some(override_dv(v@[i as int])),
            Option::None => spec_override_get(overrides_dv(v@.take(n as int)), key@) is None,
        },
    decreases n,
{
    if n == 0 {
        proof {
            assert(v@.take(0) =~= Seq::<IdentOverride>::empty());
        }
        Option::None
    } else {
        proof {
            lemma_overrides_dv(v@.take(n as int));
            lemma_overrides_dv(v@.take(n as int - 1));
            assert(overrides_dv(v@.take(n as int)).drop_last() =~= overrides_dv(
                v@.take(n as int - 1),
            ));
        }
        if string_eq(&v[n - 1].key, key) {
            Option::Some(n - 1)
        } else {
            override_get_upto(v, key, n - 1)
        }
    }
}

/// The last override entry for `key`, if any.
pub fn override_get<'a>(v: &'a Vec<IdentOverride>, key: &String) -> (r: Option<
    &'a IdentOverride,
>)
    ensures
        match r {
            Option::Some(ov) => spec_override_get(overrides_dv(v@), key@) == Option::Some(
                override_dv(*ov),
            ),
            Option::None => spec_override_get(overrides_dv(v@), key@) is None,
        },
{
    proof {
        assert(v@.take(v@.len() as int) =~= v@);
    }
    match override_get_upto(v, key, v.len()) {
        Option::Some(i) => Option::Some(&v[i]),
        Option::None => Option::None,
    }
}

/// Rename one identifier occurrence for the current variant.
pub fn ident_add_suffix(rule: &IdentRule, base: &String, mode: ConvertMode, key: &Option<
    String,
>) -> (r: String)
    ensures
        r@ == spec_rename(rule_dv(*rule), base@, mode, opt_string_dv(*key)),
{
    if rule.keep {
        return clone_string(base);
    }
    if let Option::Some(k) = key {
        if let Option::Some(ov) = override_get(&rule.overrides, k) {
            return match &ov.name {
                Option::Some(n) => clone_string(n),
                Option::None => clone_string(base),
            };
        }
    }
    let word_is_sync: bool = match key {
        Option::Some(k) => if is_word(k, "sync") {
            true
        } else if is_word(k, "async") {
            false
        } else {
            mode == ConvertMode::IntoSync
        },
        Option::None => mode == ConvertMode::IntoSync,
    };
    let suffix: &str = if word_is_sync {
        if rule.snake {
            "_sync"
        } else {
            "Sync"
        }
    } else {
        if rule.snake {
            "_async"
        } else {
            "Async"
        }
    };
    let mut r = clone_string(base);
    r.append(suffix);
    r
}

// ---------------------------------------------------------------------------
// Laws of the rename engine.
// ---------------------------------------------------------------------------

/// A `keep` identifier is unchanged in every variant: whatever the mode and
/// the key, the computed name equals the base name.
pub proof fn lemma_keep_invariant(
    rule: SpecIdentRule,
    base: Seq<char>,
    mode: ConvertMode,
    key: Option<Seq<char>>,
)
    requires
        rule.keep,
    ensures
        spec_rename(rule, base, mode, key) == base,
{
}

/// An explicit override wins over the default suffix scheme: when an
/// override entry with a name is configured for the variant's key, the
/// computed name equals that override, whatever the style flag says.
pub proof fn lemma_override_precedence(
    rule: SpecIdentRule,
    base: Seq<char>,
    mode: ConvertMode,
    k: Seq<char>,
    n: Seq<char>,
)
    requires
        !rule.keep,
        spec_override_get(rule.overrides, k) matches Some(ov) && ov.name == Some(n),
    ensures
        spec_rename(rule, base, mode, Option::Some(k)) == n,
{
}

/// The default suffix scheme: with no override and type style, key `sync`
/// appends `Sync`; with function style, key `async` appends `_async`.
pub proof fn lemma_default_suffix(rule: SpecIdentRule, base: Seq<char>, mode: ConvertMode)
    requires
        !rule.keep,
    ensures
        !rule.snake && spec_override_get(rule.overrides, "sync"@) is None ==> spec_rename(
            rule,
            base,
            mode,
            Option::Some("sync"@),
        ) == base + "Sync"@,
        rule.snake && spec_override_get(rule.overrides, "async"@) is None ==> spec_rename(
            rule,
            base,
            mode,
            Option::Some("async"@),
        ) == base + "_async"@,
{
    reveal_strlit("sync");
    reveal_strlit("async");
    assert(("sync"@).len() == 4);
    assert(("async"@).len() == 5);
}

} // verus!
