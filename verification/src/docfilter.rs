//! The documentation-example filter: inside a run of consecutive
//! documentation attributes, fenced example sections tagged for one variant
//! are kept only in that variant; untagged sections are always kept.
//!
//! A fence is a line whose first three characters are backticks.  The
//! opening line may carry a variant tag `only_if(KEY)` anywhere in the line;
//! the section runs up to and including the next fence line.

use vstd::prelude::*;

use crate::ast::{Attr, Meta, SpecAttr, SpecMeta, attr_dv, attrs_dv, clone_attr, clone_string, is_word, string_eq, lemma_attrs_dv, lemma_metas_dv, lemma_strings_dv, metas_dv, strings_dv};

verus! {

// ---------------------------------------------------------------------------
// Line-level specification.
// ---------------------------------------------------------------------------

pub open spec fn spec_is_fence(line: Seq<char>) -> bool {
    line.len() >= 3 && line[0] == '`' && line[1] == '`' && line[2] == '`'
}

/// Position of the first occurrence of the tag marker `only_if(` at or after
/// position `i`.
pub open spec fn spec_find_marker(line: Seq<char>, i: int) -> Option<int>
    decreases line.len() - i
        when 0 <= i
{
    if i + 8 > line.len() {
        Option::None
    } else if line.subrange(i, i + 8) == "only_if("@ {
        Option::Some(i)
    } else {
        spec_find_marker(line, i + 1)
    }
}

/// Position of the first closing parenthesis at or after position `i`.
pub open spec fn spec_find_rparen(line: Seq<char>, i: int) -> Option<int>
    decreases line.len() - i
        when 0 <= i
{
    if i >= line.len() {
        Option::None
    } else if line[i] == ')' {
        Option::Some(i)
    } else {
        spec_find_rparen(line, i + 1)
    }
}

/// The variant tag of a fence-opening line, if it carries one.
pub open spec fn spec_fence_tag(line: Seq<char>) -> Option<Seq<char>> {
    match spec_find_marker(line, 0) {
        Option::None => Option::None,
        Option::Some(p) => match spec_find_rparen(line, p + 8) {
            Option::None => Option::None,
            Option::Some(q) => Option::Some(line.subrange(p + 8, q)),
        },
    }
}

/// The filtered text block: lines of sections tagged for another key are
/// removed, everything else is kept.  `spec_filter_lines_from` walks the
/// block outside any tagged section; `spec_section_from` walks inside one,
/// keeping or dropping its lines.
pub open spec fn spec_filter_lines_from(
    lines: Seq<Seq<char>>,
    i: int,
    key: Seq<char>,
) -> Seq<Seq<char>>
    decreases lines.len() - i, 1int
        when 0 <= i
{
    if i >= lines.len() {
        Seq::empty()
    } else if spec_is_fence(lines[i]) && spec_fence_tag(lines[i]) is Some {
        let keep = spec_fence_tag(lines[i]) == Option::Some(key);
        if keep {
            seq![lines[i]] + spec_section_from(lines, i + 1, key, true)
        } else {
            spec_section_from(lines, i + 1, key, false)
        }
    } else {
        seq![lines[i]] + spec_filter_lines_from(lines, i + 1, key)
    }
}

pub open spec fn spec_section_from(
    lines: Seq<Seq<char>>,
    i: int,
    key: Seq<char>,
    keep: bool,
) -> Seq<Seq<char>>
    decreases lines.len() - i, 0int
        when 0 <= i
{
    if i >= lines.len() {
        Seq::empty()
    } else if spec_is_fence(lines[i]) {
        (if keep {
            seq![lines[i]]
        } else {
            Seq::empty()
        }) + spec_filter_lines_from(lines, i + 1, key)
    } else {
        (if keep {
            seq![lines[i]]
        } else {
            Seq::empty()
        }) + spec_section_from(lines, i + 1, key, keep)
    }
}

// ---------------------------------------------------------------------------
// Attribute-level specification.
// ---------------------------------------------------------------------------

/// The text of a documentation attribute: a single-segment `doc` path with a
/// single string argument.
pub open spec fn spec_doc_text(a: SpecAttr) -> Option<Seq<char>> {
    if a.path.len() == 1 && a.path[0] == "doc"@ && a.args.len() == 1 && a.args[0] is Str {
        Option::Some(a.args[0]->Str_0)
    } else {
        Option::None
    }
}

/// End of the run of consecutive documentation attributes starting at `i`.
pub open spec fn spec_run_end(attrs: Seq<SpecAttr>, i: int) -> int
    decreases attrs.len() - i
        when 0 <= i
{
    if i >= attrs.len() {
        i
    } else if spec_doc_text(attrs[i]) is Some {
        spec_run_end(attrs, i + 1)
    } else {
        i
    }
}

pub proof fn lemma_run_end(attrs: Seq<SpecAttr>, i: int)
    requires
        0 <= i,
    ensures
        i <= spec_run_end(attrs, i) <= attrs.len() || (i >= attrs.len() && spec_run_end(attrs, i)
            == i),
        i < attrs.len() && spec_doc_text(attrs[i]) is Some ==> spec_run_end(attrs, i) > i,
    decreases attrs.len() - i,
{
    if i < attrs.len() && spec_doc_text(attrs[i]) is Some {
        lemma_run_end(attrs, i + 1);
    }
}

/// The text lines of the documentation attributes in `[i, j)`.
pub open spec fn spec_run_lines(attrs: Seq<SpecAttr>, i: int, j: int) -> Seq<Seq<char>>
    decreases j - i
        when 0 <= i
{
    if i >= j {
        Seq::empty()
    } else {
        seq![
            match spec_doc_text(attrs[i]) {
                Option::Some(t) => t,
                Option::None => Seq::empty(),
            },
        ] + spec_run_lines(attrs, i + 1, j)
    }
}

/// One documentation attribute per filtered line.
pub open spec fn spec_emit_docs(lines: Seq<Seq<char>>) -> Seq<SpecAttr>
    decreases lines,
{
    if lines.len() == 0 {
        Seq::empty()
    } else {
        spec_emit_docs(lines.drop_last()).push(
            SpecAttr { path: seq!["doc"@], args: seq![SpecMeta::Str(lines.last())] },
        )
    }
}

/// The attribute list with every run of consecutive documentation attributes
/// replaced by its filtered form.
pub open spec fn spec_filter_doc_attrs_from(
    attrs: Seq<SpecAttr>,
    i: int,
    key: Seq<char>,
) -> Seq<SpecAttr>
    decreases attrs.len() - i
        when 0 <= i
{
    if i >= attrs.len() {
        Seq::empty()
    } else if spec_doc_text(attrs[i]) is Some {
        proof {
            lemma_run_end(attrs, i);
        }
        let j = spec_run_end(attrs, i);
        spec_emit_docs(spec_filter_lines_from(spec_run_lines(attrs, i, j), 0, key))
            + spec_filter_doc_attrs_from(attrs, j, key)
    } else {
        seq![attrs[i]] + spec_filter_doc_attrs_from(attrs, i + 1, key)
    }
}

/// The whole filter.  Without a current key nothing is filtered.
pub open spec fn spec_filter_doc_attrs(attrs: Seq<SpecAttr>, key: Option<Seq<char>>) -> Seq<
    SpecAttr,
> {
    match key {
        Option::None => attrs,
        Option::Some(k) => spec_filter_doc_attrs_from(attrs, 0, k),
    }
}

} // verus!

verus! {

// ---------------------------------------------------------------------------
// Executable filter.
// ---------------------------------------------------------------------------

fn is_fence(line: &String) -> (r: bool)
    ensures
        r == spec_is_fence(line@),
{
    let s = line.as_str();
    let n = s.unicode_len();
    n >= 3 && s.get_char(0) == '`' && s.get_char(1) == '`' && s.get_char(2) == '`'
}

fn find_marker(line: &String, i: usize) -> (r: Option<usize>)
    requires
        i <= line@.len(),
    ensures
        match r {
            Option::Some(p) => Option::Some(p as int) == spec_find_marker(line@, i as int) && i
                <= p && p + 8 <= line@.len() && p + 8 <= usize::MAX,
            Option::None => spec_find_marker(line@, i as int) is None,
        },
    decreases line@.len() - i,
{
    let s = line.as_str();
    let n = s.unicode_len();
    if n < 8 || i > n - 8 {
        return Option::None;
    }
    let marker = "only_if(";
    proof {
        reveal_strlit("only_if(");
        assert(("only_if("@).len() == 8);
    }
    let mut k: usize = 0;
    let mut all_eq: bool = true;
    while k < 8
        invariant
            0 <= k <= 8,
            i + 8 <= line@.len(),
            i + 8 <= usize::MAX,
            s@ == line@,
            marker@ == "only_if("@,
            ("only_if("@).len() == 8,
            all_eq ==> (forall|j: int| 0 <= j < k ==> line@[i + j] == ("only_if("@)[j]),
            !all_eq ==> (exists|j: int| 0 <= j < 8 && line@[i + j] != ("only_if("@)[j]),
            !all_eq ==> k == 8,
        decreases 8 - k,
    {
        if s.get_char(i + k) != marker.get_char(k) {
            proof {
                assert(line@[i + k as int] != ("only_if("@)[k as int]);
            }
            all_eq = false;
            k = 8;
        } else {
            k = k + 1;
        }
    }
    if all_eq {
        proof {
            assert(line@.subrange(i as int, i + 8) =~= "only_if("@);
        }
        Option::Some(i)
    } else {
        proof {
            assert(line@.subrange(i as int, i + 8) != "only_if("@) by {
                let w = choose|j: int| 0 <= j < 8 && line@[i + j] != ("only_if("@)[j];
                assert(line@.subrange(i as int, i + 8)[w] != ("only_if("@)[w]);
            }
        }
        find_marker(line, i + 1)
    }
}

fn find_rparen(line: &String, i: usize) -> (r: Option<usize>)
    requires
        i <= line@.len(),
    ensures
        match r {
            Option::Some(p) => Option::Some(p as int) == spec_find_rparen(line@, i as int) && i
                <= p < line@.len(),
            Option::None => spec_find_rparen(line@, i as int) is None,
        },
    decreases line@.len() - i,
{
    let s = line.as_str();
    let n = s.unicode_len();
    if i >= n {
        Option::None
    } else if s.get_char(i) == ')' {
        Option::Some(i)
    } else {
        find_rparen(line, i + 1)
    }
}

fn fence_tag(line: &String) -> (r: Option<String>)
    ensures
        match r {
            Option::Some(t) => spec_fence_tag(line@) == Option::Some(t@),
            Option::None => spec_fence_tag(line@) is None,
        },
{
    match find_marker(line, 0) {
        Option::None => Option::None,
        Option::Some(p) => {
            match find_rparen(line, p + 8) {
                Option::None => Option::None,
                Option::Some(q) => {
                    let sub = line.as_str().substring_char(p + 8, q);
                    Option::Some(String::from_str(sub))
                },
            }
        },
    }
}

fn filter_lines_from(lines: &Vec<String>, i: usize, key: &String) -> (r: Vec<String>)
    requires
        i <= lines@.len(),
    ensures
        strings_dv(r@) == spec_filter_lines_from(strings_dv(lines@), i as int, key@),
    decreases lines@.len() - i, 1int,
{
    proof {
        lemma_strings_dv(lines@);
    }
    if i >= lines.len() {
        Vec::new()
    } else {
        let line = &lines[i];
        if is_fence(line) {
            match fence_tag(line) {
                Option::Some(t) => {
                    if string_eq(&t, key) {
                        let mut tail = section_from(lines, i + 1, key, true);
                        let ghost tl = tail@;
                        let mut r: Vec<String> = Vec::new();
                        r.push(clone_string(line));
                        r.append(&mut tail);
                        proof {
                            lemma_strings_dv(r@);
                            lemma_strings_dv(tl);
                            assert(strings_dv(r@) =~= seq![lines@[i as int]@] + strings_dv(tl));
                        }
                        r
                    } else {
                        section_from(lines, i + 1, key, false)
                    }
                },
                Option::None => {
                    let mut tail = filter_lines_from(lines, i + 1, key);
                    let ghost tl = tail@;
                    let mut r: Vec<String> = Vec::new();
                    r.push(clone_string(line));
                    r.append(&mut tail);
                    proof {
                        lemma_strings_dv(r@);
                        lemma_strings_dv(tl);
                        assert(strings_dv(r@) =~= seq![lines@[i as int]@] + strings_dv(tl));
                    }
                    r
                },
            }
        } else {
            let mut tail = filter_lines_from(lines, i + 1, key);
            let ghost tl = tail@;
            let mut r: Vec<String> = Vec::new();
            r.push(clone_string(line));
            r.append(&mut tail);
            proof {
                lemma_strings_dv(r@);
                lemma_strings_dv(tl);
                assert(strings_dv(r@) =~= seq![lines@[i as int]@] + strings_dv(tl));
            }
            r
        }
    }
}

fn section_from(lines: &Vec<String>, i: usize, key: &String, keep: bool) -> (r: Vec<String>)
    requires
        i <= lines@.len(),
    ensures
        strings_dv(r@) == spec_section_from(strings_dv(lines@), i as int, key@, keep),
    decreases lines@.len() - i, 0int,
{
    proof {
        lemma_strings_dv(lines@);
    }
    if i >= lines.len() {
        Vec::new()
    } else {
        let line = &lines[i];
        let fence = is_fence(line);
        let mut tail = if fence {
            filter_lines_from(lines, i + 1, key)
        } else {
            section_from(lines, i + 1, key, keep)
        };
        let ghost tl = tail@;
        if keep {
            let mut r: Vec<String> = Vec::new();
            r.push(clone_string(line));
            r.append(&mut tail);
            proof {
                lemma_strings_dv(r@);
                lemma_strings_dv(tl);
                assert(strings_dv(r@) =~= seq![lines@[i as int]@] + strings_dv(tl));
            }
            r
        } else {
            proof {
                assert(strings_dv(tl) =~= Seq::<Seq<char>>::empty() + strings_dv(tl));
            }
            tail
        }
    }
}

/// The text of a documentation attribute, if this is one.
fn doc_text<'a>(a: &'a Attr) -> (r: Option<&'a String>)
    ensures
        match r {
            Option::Some(t) => spec_doc_text(attr_dv(*a)) == Option::Some(t@),
            Option::None => spec_doc_text(attr_dv(*a)) is None,
        },
{
    proof {
        lemma_strings_dv(a.path@);
        lemma_metas_dv(a.args@);
    }
    if a.path.len() == 1 && a.args.len() == 1 {
        if is_word(&a.path[0], "doc") {
            match &a.args[0] {
                Meta::Str(s) => Option::Some(s),
                _ => Option::None,
            }
        } else {
            Option::None
        }
    } else {
        Option::None
    }
}

fn run_end(attrs: &Vec<Attr>, i: usize) -> (r: usize)
    requires
        i <= attrs@.len(),
    ensures
        r as int == spec_run_end(attrs_dv(attrs@), i as int),
        i <= r <= attrs@.len(),
    decreases attrs@.len() - i,
{
    proof {
        lemma_attrs_dv(attrs@);
    }
    if i >= attrs.len() {
        i
    } else if doc_text(&attrs[i]).is_some() {
        run_end(attrs, i + 1)
    } else {
        i
    }
}

fn run_lines(attrs: &Vec<Attr>, i: usize, j: usize) -> (r: Vec<String>)
    requires
        i <= j <= attrs@.len(),
    ensures
        strings_dv(r@) == spec_run_lines(attrs_dv(attrs@), i as int, j as int),
    decreases j - i,
{
    proof {
        lemma_attrs_dv(attrs@);
    }
    if i >= j {
        Vec::new()
    } else {
        let first: String = match doc_text(&attrs[i]) {
            Option::Some(t) => clone_string(t),
            Option::None => String::new(),
        };
        let mut tail = run_lines(attrs, i + 1, j);
        let ghost tl = tail@;
        let mut r: Vec<String> = Vec::new();
        r.push(first);
        r.append(&mut tail);
        proof {
            lemma_strings_dv(r@);
            lemma_strings_dv(tl);
            assert(strings_dv(r@) =~= spec_run_lines(attrs_dv(attrs@), i as int, j as int));
        }
        r
    }
}

fn emit_docs(mut lines: Vec<String>) -> (r: Vec<Attr>)
    ensures
        attrs_dv(r@) == spec_emit_docs(strings_dv(lines@)),
    decreases lines@.len(),
{
    if lines.len() == 0 {
        Vec::new()
    } else {
        let ghost whole = lines@;
        let last = lines.pop().unwrap();
        let ghost prev = lines@;
        let mut r = emit_docs(lines);
        let ghost pre = r@;
        let mut path: Vec<String> = Vec::new();
        path.push(String::from_str("doc"));
        let mut args: Vec<Meta> = Vec::new();
        args.push(Meta::Str(last));
        let a = Attr { path, args };
        proof {
            lemma_strings_dv(a.path@);
            lemma_metas_dv(a.args@);
            assert(strings_dv(a.path@) =~= seq!["doc"@]);
            assert(metas_dv(a.args@) =~= seq![SpecMeta::Str(whole.last()@)]);
        }
        r.push(a);
        proof {
            lemma_strings_dv(whole);
            lemma_strings_dv(prev);
            assert(r@.drop_last() =~= pre);
            assert(strings_dv(whole).drop_last() =~= strings_dv(prev));
            assert(strings_dv(whole).last() == whole.last()@);
            assert(attr_dv(a) == SpecAttr {
                path: seq!["doc"@],
                args: seq![SpecMeta::Str(strings_dv(whole).last())],
            });
            assert(attrs_dv(r@) == spec_emit_docs(strings_dv(whole)));
        }
        r
    }
}

fn filter_doc_attrs_from(attrs: &Vec<Attr>, i: usize, key: &String) -> (r: Vec<Attr>)
    requires
        i <= attrs@.len(),
    ensures
        attrs_dv(r@) == spec_filter_doc_attrs_from(attrs_dv(attrs@), i as int, key@),
    decreases attrs@.len() - i,
{
    proof {
        lemma_attrs_dv(attrs@);
    }
    if i >= attrs.len() {
        Vec::new()
    } else if doc_text(&attrs[i]).is_some() {
        let j = run_end(attrs, i);
        proof {
            lemma_run_end(attrs_dv(attrs@), i as int);
        }
        let lines = run_lines(attrs, i, j);
        let filtered = filter_lines_from(&lines, 0, key);
        let mut r = emit_docs(filtered);
        let ghost emitted = r@;
        let mut tail = filter_doc_attrs_from(attrs, j, key);
        let ghost tl = tail@;
        r.append(&mut tail);
        proof {
            lemma_attrs_dv(r@);
            lemma_attrs_dv(emitted);
            lemma_attrs_dv(tl);
            assert(attrs_dv(r@) =~= attrs_dv(emitted) + attrs_dv(tl));
        }
        r
    } else {
        let mut tail = filter_doc_attrs_from(attrs, i + 1, key);
        let ghost tl = tail@;
        let mut r: Vec<Attr> = Vec::new();
        r.push(clone_attr(&attrs[i]));
        r.append(&mut tail);
        proof {
            lemma_attrs_dv(r@);
            lemma_attrs_dv(tl);
            assert(attrs_dv(r@) =~= seq![attr_dv(attrs@[i as int])] + attrs_dv(tl));
        }
        r
    }
}

/// Filter the variant-tagged documentation examples of an attribute list for
/// the current variant key.  Without a key the list is returned unchanged.
pub fn process_doc_attrs(attrs: &Vec<Attr>, key: &Option<String>) -> (r: Vec<Attr>)
    ensures
        attrs_dv(r@) == spec_filter_doc_attrs(
            attrs_dv(attrs@),
            crate::params::opt_string_dv(*key),
        ),
{
    match key {
        Option::None => {
            let r = crate::ast::clone_attrs(attrs);
            r
        },
        Option::Some(k) => filter_doc_attrs_from(attrs, 0, k),
    }
}

} // verus!
