//! Templates with `{{name}}` placeholders.
//!
//! A placeholder is `{{`, then one or more characters none of which is a
//! brace, then `}}`; its name is what lies between the double braces with
//! surrounding whitespace removed.  Placeholders are found left to right and do
//! not overlap.  This is the language of the regular expression
//! `\{\{\s*([^{}]+?)\s*\}\}`, which the `regex` crate runs here.

use vstd::prelude::*;
use crate::model::{Param, ParamModel, params_model};
use crate::text::{
    is_white_space, trim, trim_start, trim_end, all_white_space, trim_string,
    lemma_trim_shape, lemma_trim_start_at, lemma_trim_end_at,
};

verus! {

// ---------------------------------------------------------------------------
// The placeholder language
// ---------------------------------------------------------------------------

pub open spec fn is_brace(c: char) -> bool {
    c == '{' || c == '}'
}

/// The end of the run of non-brace characters that starts at `k`.
pub open spec fn brace_free_end(t: Seq<char>, k: int) -> int
    decreases t.len() - k,
{
    if k < 0 {
        0
    } else if k >= t.len() {
        t.len() as int
    } else if is_brace(t[k]) {
        k
    } else {
        brace_free_end(t, k + 1)
    }
}

/// Whether a placeholder starts at index `i` of `t`.
pub open spec fn placeholder_at(t: Seq<char>, i: int) -> bool {
    let e = brace_free_end(t, i + 2);
    &&& 0 <= i
    &&& i + 1 < t.len()
    &&& t[i] == '{'
    &&& t[i + 1] == '{'
    &&& e > i + 2
    &&& e + 1 < t.len()
    &&& t[e] == '}'
    &&& t[e + 1] == '}'
}

/// One past the last index of the placeholder that starts at `i`.
pub open spec fn placeholder_end(t: Seq<char>, i: int) -> int {
    brace_free_end(t, i + 2) + 2
}

/// The placeholders of `t` at or after index `p`, as (start, end) pairs,
/// leftmost first, without overlap.
pub open spec fn spans_from(t: Seq<char>, p: int) -> Seq<(int, int)>
    decreases t.len() - p,
{
    if p < 0 || p >= t.len() {
        Seq::empty()
    } else if placeholder_at(t, p) {
        seq![(p, placeholder_end(t, p))] + spans_from(t, placeholder_end(t, p))
    } else {
        spans_from(t, p + 1)
    }
}

/// The placeholders of `t`.
pub open spec fn spans(t: Seq<char>) -> Seq<(int, int)> {
    spans_from(t, 0)
}

/// The text of the `i`-th placeholder, braces included.
pub open spec fn whole(t: Seq<char>, i: int) -> Seq<char> {
    t.subrange(spans(t)[i].0, spans(t)[i].1)
}

/// What lies between the double braces of the `i`-th placeholder.
pub open spec fn inner(t: Seq<char>, i: int) -> Seq<char> {
    t.subrange(spans(t)[i].0 + 2, spans(t)[i].1 - 2)
}

/// The name of the `i`-th placeholder.
pub open spec fn name_of(t: Seq<char>, i: int) -> Seq<char> {
    trim(inner(t, i))
}

/// The text before the `i`-th placeholder and after the one before it; for
/// `i` equal to the number of placeholders, the text after the last one.
pub open spec fn piece(t: Seq<char>, i: int) -> Seq<char> {
    let n = spans(t).len();
    let from = if i == 0 {
        0
    } else {
        spans(t)[i - 1].1
    };
    let to = if i == n {
        t.len() as int
    } else {
        spans(t)[i].0
    };
    t.subrange(from, to)
}

/// The capture group of the regular expression for a placeholder whose
/// inside is `x`: `x` without surrounding whitespace, or, when `x` is all
/// whitespace, its last character.
pub open spec fn group_one(x: Seq<char>) -> Seq<char> {
    if all_white_space(x) {
        x.subrange(x.len() - 1, x.len() as int)
    } else {
        trim(x)
    }
}

// ---------------------------------------------------------------------------
// Calls into `regex`
// ---------------------------------------------------------------------------

/// Runs `regex::Regex::captures_iter` with the placeholder pattern over
/// `template` and returns, for each match, the whole match and capture group 1.
/// Claimed of the crate: matches are found leftmost-first and do not overlap
/// (the crate's documented semantics), `\s` is Unicode `White_Space`, `[^{}]`
/// accepts any character but a brace, a greedy `\s*` before a lazy `+?` takes
/// all the leading whitespace it can, so the matches are `spans`, and
/// group 1 is `group_one` of the inside.
#[verifier::external_body]
fn regex_placeholder_captures(template: &str) -> (r: Vec<(String, String)>)
    ensures
        r@.len() == spans(template@).len(),
        forall|i: int|
            0 <= i < r@.len() ==> (#[trigger] r@[i]).0@ == whole(template@, i) && r@[i].1@
                == group_one(inner(template@, i)),
{
    let re = regex::Regex::new(r"\{\{\s*([^{}]+?)\s*\}\}").unwrap();
    re.captures_iter(template).map(|c| (c[0].to_string(), c[1].to_string())).collect()
}

/// Runs `regex::Regex::split` with the placeholder pattern over `template`:
/// the texts between consecutive matches, one more than there are matches
/// (the crate yields the rest after the last match, empty or not).
#[verifier::external_body]
fn regex_placeholder_split(template: &str) -> (r: Vec<String>)
    ensures
        r@.len() == spans(template@).len() + 1,
        forall|i: int| 0 <= i < r@.len() ==> (#[trigger] r@[i])@ == piece(template@, i),
{
    let re = regex::Regex::new(r"\{\{\s*([^{}]+?)\s*\}\}").unwrap();
    re.split(template).map(|s| s.to_string()).collect()
}

// ---------------------------------------------------------------------------
// Facts about the language
// ---------------------------------------------------------------------------

pub proof fn lemma_brace_free_end(t: Seq<char>, k: int)
    requires
        0 <= k <= t.len(),
    ensures
        k <= brace_free_end(t, k) <= t.len(),
        forall|j: int| k <= j < brace_free_end(t, k) ==> !is_brace(#[trigger] t[j]),
        brace_free_end(t, k) < t.len() ==> is_brace(t[brace_free_end(t, k)]),
    decreases t.len() - k,
{
    if k < t.len() && !is_brace(t[k]) {
        lemma_brace_free_end(t, k + 1);
    }
}

/// The placeholders found from `p` lie in order between `p` and the end of `t`.
pub proof fn lemma_spans_from(t: Seq<char>, p: int)
    requires
        0 <= p,
    ensures
        forall|i: int|
            0 <= i < spans_from(t, p).len() ==> p <= (#[trigger] spans_from(t, p)[i]).0
                && spans_from(t, p)[i].0 + 4 < spans_from(t, p)[i].1 <= t.len()
                && placeholder_at(t, spans_from(t, p)[i].0) && spans_from(t, p)[i].1
                == placeholder_end(t, spans_from(t, p)[i].0),
        forall|i: int|
            0 <= i < spans_from(t, p).len() - 1 ==> (#[trigger] spans_from(t, p)[i]).1
                <= spans_from(t, p)[i + 1].0,
    decreases t.len() - p,
{
    if p >= t.len() {
    } else if placeholder_at(t, p) {
        let e = placeholder_end(t, p);
        assert(e > p + 4 && e <= t.len());
        lemma_spans_from(t, e);
        let rest = spans_from(t, e);
        let all = spans_from(t, p);
        assert(all == seq![(p, e)] + rest);
        assert forall|i: int| 0 <= i < all.len() - 1 implies (#[trigger] all[i]).1 <= all[i
            + 1].0 by {
            if i > 0 {
                assert(all[i] == rest[i - 1]);
                assert(all[i + 1] == rest[i]);
            } else {
                assert(all[1] == rest[0]);
            }
        }
        assert forall|i: int| 0 <= i < all.len() implies p <= (#[trigger] all[i]).0 && all[i].0
            + 4 < all[i].1 <= t.len() && placeholder_at(t, all[i].0) && all[i].1
            == placeholder_end(t, all[i].0) by {
            if i > 0 {
                assert(all[i] == rest[i - 1]);
            }
        }
    } else {
        lemma_spans_from(t, p + 1);
        assert(spans_from(t, p) == spans_from(t, p + 1));
    }
}

pub proof fn lemma_spans(t: Seq<char>)
    ensures
        forall|i: int|
            0 <= i < spans(t).len() ==> 0 <= (#[trigger] spans(t)[i]).0 && spans(t)[i].0 + 4
                < spans(t)[i].1 <= t.len() && placeholder_at(t, spans(t)[i].0) && spans(t)[i].1
                == placeholder_end(t, spans(t)[i].0),
        forall|i: int|
            0 <= i < spans(t).len() - 1 ==> (#[trigger] spans(t)[i]).1 <= spans(t)[i + 1].0,
{
    lemma_spans_from(t, 0);
}

/// A placeholder's inside is non-empty and free of braces.
pub proof fn lemma_inner(t: Seq<char>, i: int)
    requires
        0 <= i < spans(t).len(),
    ensures
        inner(t, i).len() > 0,
        forall|j: int| 0 <= j < inner(t, i).len() ==> !is_brace(#[trigger] inner(t, i)[j]),
        whole(t, i) == seq!['{', '{'] + inner(t, i) + seq!['}', '}'],
{
    lemma_spans(t);
    let s = spans(t)[i].0;
    lemma_brace_free_end(t, s + 2);
    assert forall|j: int| 0 <= j < inner(t, i).len() implies !is_brace(
        #[trigger] inner(t, i)[j],
    ) by {
        assert(inner(t, i)[j] == t[s + 2 + j]);
    }
    assert(whole(t, i) =~= seq!['{', '{'] + inner(t, i) + seq!['}', '}']);
}

/// Trimming is idempotent.
pub proof fn lemma_trim_trim(s: Seq<char>)
    ensures
        trim(trim(s)) == trim(s),
{
    lemma_trim_shape(s);
    let u = trim(s);
    if u.len() == 0 {
        assert(trim_start(u) == u);
        assert(trim_end(u) == u);
    } else {
        lemma_trim_start_at(u, 0);
        assert(u.skip(0) =~= u);
        lemma_trim_end_at(u, u.len() as int);
        assert(u.take(u.len() as int) =~= u);
    }
}

/// A text that is all whitespace trims to nothing.
pub proof fn lemma_trim_all_white(s: Seq<char>)
    requires
        all_white_space(s),
    ensures
        trim(s).len() == 0,
{
    lemma_trim_start_at(s, s.len() as int);
    assert(s.skip(s.len() as int).len() == 0);
}

/// Trimming the capture group gives the trimmed inside.
pub proof fn lemma_group_one_trim(x: Seq<char>)
    requires
        x.len() > 0,
    ensures
        trim(group_one(x)) == trim(x),
{
    if all_white_space(x) {
        let g = x.subrange(x.len() - 1, x.len() as int);
        assert(is_white_space(x[x.len() - 1]));
        assert(all_white_space(g));
        lemma_trim_all_white(g);
        lemma_trim_all_white(x);
        assert(trim(g) =~= trim(x));
    } else {
        lemma_trim_trim(x);
    }
}

// ---------------------------------------------------------------------------
// Parameter names
// ---------------------------------------------------------------------------

/// The names collected from the first `k` of the given raw names: empty names
/// are skipped and each name is kept once, at its first occurrence.
pub open spec fn distinct_names(raw: Seq<Seq<char>>, k: int) -> Seq<Seq<char>>
    decreases k,
{
    if k <= 0 {
        Seq::empty()
    } else {
        let acc = distinct_names(raw, k - 1);
        let n = raw[k - 1];
        if n.len() > 0 && !acc.contains(n) {
            acc.push(n)
        } else {
            acc
        }
    }
}

/// The names of all placeholders of `t`, in order.
pub open spec fn raw_names(t: Seq<char>) -> Seq<Seq<char>> {
    Seq::new(spans(t).len(), |i: int| name_of(t, i))
}

/// The parameter names a template asks for: each non-empty placeholder name,
/// once, in order of first appearance.
pub open spec fn param_names_spec(t: Seq<char>) -> Seq<Seq<char>> {
    distinct_names(raw_names(t), raw_names(t).len() as int)
}

pub open spec fn strings_model(v: Seq<String>) -> Seq<Seq<char>> {
    v.map_values(|s: String| s@)
}

/// Whether `v` holds a string equal to `s`.
fn contains_string(v: &Vec<String>, s: &String) -> (r: bool)
    ensures
        r == strings_model(v@).contains(s@),
{
    let mut i: usize = 0;
    while i < v.len()
        invariant
            0 <= i <= v.len(),
            forall|j: int| 0 <= j < i ==> v@[j]@ != s@,
        decreases v.len() - i,
    {
        if v[i] == *s {
            assert(strings_model(v@)[i as int] == s@);
            return true;
        }
        i = i + 1;
    }
    assert forall|j: int| 0 <= j < strings_model(v@).len() implies strings_model(v@)[j]
        != s@ by {
        assert(strings_model(v@)[j] == v@[j]@);
    }
    false
}

/// The names of the `{{name}}` placeholders of `template`, trimmed, without
/// empty names and without repeats, in order of first appearance.
pub fn extract_param_names(template: &str) -> (r: Vec<String>)
    ensures
        strings_model(r@) == param_names_spec(template@),
{
    let caps = regex_placeholder_captures(template);
    let ghost t = template@;
    let ghost raw = raw_names(t);
    let mut acc: Vec<String> = Vec::new();
    let mut i: usize = 0;
    while i < caps.len()
        invariant
            0 <= i <= caps.len(),
            caps@.len() == spans(t).len(),
            raw == raw_names(t),
            forall|k: int|
                0 <= k < caps@.len() ==> (#[trigger] caps@[k]).0@ == whole(t, k) && caps@[k].1@
                    == group_one(inner(t, k)),
            strings_model(acc@) == distinct_names(raw, i as int),
        decreases caps.len() - i,
    {
        let n = trim_string(caps[i].1.as_str());
        proof {
            lemma_inner(t, i as int);
            lemma_group_one_trim(inner(t, i as int));
            assert(n@ == raw[i as int]);
        }
        if !n.as_str().is_empty() && !contains_string(&acc, &n) {
            acc.push(n);
            assert(strings_model(acc@) =~= distinct_names(raw, i + 1));
        }
        i = i + 1;
    }
    acc
}

// ---------------------------------------------------------------------------
// Formatting
// ---------------------------------------------------------------------------

/// The value of the first parameter named `name`, if any.
pub open spec fn lookup(params: Seq<ParamModel>, name: Seq<char>) -> Option<Seq<char>>
    decreases params.len(),
{
    if params.len() == 0 {
        None
    } else if params[0].name == name {
        Some(params[0].value)
    } else {
        lookup(params.drop_first(), name)
    }
}

/// What the `i`-th placeholder of `t` turns into: the value of the parameter
/// of its name, or, when there is none, the placeholder text itself.
pub open spec fn replacement(t: Seq<char>, params: Seq<ParamModel>, i: int) -> Seq<char> {
    match lookup(params, name_of(t, i)) {
        Some(v) => v,
        None => whole(t, i),
    }
}

/// The text of `t` up to the end of its `k`-th placeholder, with the first `k`
/// placeholders replaced.
pub open spec fn formatted_prefix(t: Seq<char>, params: Seq<ParamModel>, k: int) -> Seq<char>
    decreases k,
{
    if k <= 0 {
        Seq::empty()
    } else {
        formatted_prefix(t, params, k - 1) + piece(t, k - 1) + replacement(t, params, k - 1)
    }
}

/// `t` with every placeholder replaced.
pub open spec fn format_spec(t: Seq<char>, params: Seq<ParamModel>) -> Seq<char> {
    formatted_prefix(t, params, spans(t).len() as int) + piece(t, spans(t).len() as int)
}

/// The value of the first parameter named `name`.
fn find_param<'a>(params: &'a [Param], name: &String) -> (r: Option<&'a String>)
    ensures
        match r {
            Some(v) => lookup(params_model(params@), name@) == Some(v@),
            None => lookup(params_model(params@), name@) is None,
        },
{
    let ghost ps = params_model(params@);
    assert(ps.skip(0) =~= ps);
    let mut i: usize = 0;
    while i < params.len()
        invariant
            0 <= i <= params@.len(),
            ps == params_model(params@),
            lookup(ps, name@) == lookup(ps.skip(i as int), name@),
        decreases params.len() - i,
    {
        let ghost rest = ps.skip(i as int);
        assert(rest[0] == params@[i as int]@);
        if params[i].name == *name {
            return Some(&params[i].value);
        }
        assert(rest.drop_first() =~= ps.skip(i + 1));
        i = i + 1;
    }
    assert(ps.skip(i as int).len() == 0);
    None
}

/// `template` with each `{{name}}` placeholder replaced by the value of the
/// first parameter of that (trimmed) name; a placeholder with no such
/// parameter stays as it is.
pub fn format_template(template: &str, params: &[Param]) -> (r: String)
    ensures
        r@ == format_spec(template@, params_model(params@)),
{
    let caps = regex_placeholder_captures(template);
    let pieces = regex_placeholder_split(template);
    let ghost t = template@;
    let ghost ps = params_model(params@);
    let mut out = String::new();
    let mut i: usize = 0;
    while i < caps.len()
        invariant
            0 <= i <= caps.len(),
            caps@.len() == spans(t).len(),
            pieces@.len() == spans(t).len() + 1,
            ps == params_model(params@),
            forall|k: int|
                0 <= k < caps@.len() ==> (#[trigger] caps@[k]).0@ == whole(t, k) && caps@[k].1@
                    == group_one(inner(t, k)),
            forall|k: int| 0 <= k < pieces@.len() ==> (#[trigger] pieces@[k])@ == piece(t, k),
            out@ == formatted_prefix(t, ps, i as int),
        decreases caps.len() - i,
    {
        out.append(pieces[i].as_str());
        let name = trim_string(caps[i].1.as_str());
        proof {
            lemma_inner(t, i as int);
            lemma_group_one_trim(inner(t, i as int));
            assert(name@ == name_of(t, i as int));
        }
        match find_param(params, &name) {
            Some(v) => out.append(v.as_str()),
            None => out.append(caps[i].0.as_str()),
        }
        i = i + 1;
    }
    out.append(pieces[i].as_str());
    out
}

// ---------------------------------------------------------------------------
// Laws
// ---------------------------------------------------------------------------

/// The pieces between placeholders and the placeholders themselves, in order,
/// make up the text up to the end of the `k`-th placeholder.
proof fn lemma_prefix_tiles(t: Seq<char>, k: int)
    requires
        0 <= k <= spans(t).len(),
    ensures
        formatted_prefix(t, Seq::empty(), k) == t.subrange(
            0,
            if k == 0 {
                0
            } else {
                spans(t)[k - 1].1
            },
        ),
    decreases k,
{
    lemma_spans(t);
    if k > 0 {
        lemma_prefix_tiles(t, k - 1);
        assert(lookup(Seq::<ParamModel>::empty(), name_of(t, k - 1)) is None);
        let from = if k - 1 == 0 {
            0
        } else {
            spans(t)[k - 2].1
        };
        if k - 1 > 0 {
            assert(spans(t)[k - 2].1 <= spans(t)[k - 1].0);
        }
        assert(t.subrange(0, from) + t.subrange(from, spans(t)[k - 1].0) + t.subrange(
            spans(t)[k - 1].0,
            spans(t)[k - 1].1,
        ) =~= t.subrange(0, spans(t)[k - 1].1));
    }
}

/// Formatting with no parameters gives the template back unchanged: every
/// placeholder is left as it is.
pub proof fn law_format_without_params_is_identity(t: Seq<char>)
    ensures
        format_spec(t, Seq::empty()) == t,
{
    let n = spans(t).len() as int;
    lemma_prefix_tiles(t, n);
    lemma_spans(t);
    let from = if n == 0 {
        0
    } else {
        spans(t)[n - 1].1
    };
    assert(t.subrange(0, from) + t.subrange(from, t.len() as int) =~= t);
}

/// Every name that `extract_param_names` gives is non-empty, and no name
/// comes twice.
pub proof fn law_param_names_distinct_nonempty(t: Seq<char>)
    ensures
        forall|i: int|
            0 <= i < param_names_spec(t).len() ==> (#[trigger] param_names_spec(t)[i]).len() > 0,
        forall|i: int, j: int|
            0 <= i < j < param_names_spec(t).len() ==> param_names_spec(t)[i]
                != param_names_spec(t)[j],
{
    lemma_distinct_names(raw_names(t), raw_names(t).len() as int);
}

proof fn lemma_distinct_names(raw: Seq<Seq<char>>, k: int)
    requires
        0 <= k <= raw.len(),
    ensures
        forall|i: int|
            0 <= i < distinct_names(raw, k).len() ==> (#[trigger] distinct_names(raw, k)[i]).len()
                > 0,
        forall|i: int, j: int|
            0 <= i < j < distinct_names(raw, k).len() ==> distinct_names(raw, k)[i]
                != distinct_names(raw, k)[j],
        forall|i: int|
            0 <= i < distinct_names(raw, k).len() ==> exists|m: int|
                0 <= m < k && raw[m] == #[trigger] distinct_names(raw, k)[i],
        forall|m: int|
            0 <= m < k && raw[m].len() > 0 ==> distinct_names(raw, k).contains(#[trigger] raw[m]),
    decreases k,
{
    if k > 0 {
        lemma_distinct_names(raw, k - 1);
        let acc = distinct_names(raw, k - 1);
        let n = raw[k - 1];
        if n.len() > 0 && !acc.contains(n) {
            let r = acc.push(n);
            assert forall|i: int, j: int| 0 <= i < j < r.len() implies r[i] != r[j] by {
                if j == r.len() - 1 {
                    assert(r[i] == acc[i]);
                    assert(acc.contains(acc[i]));
                }
            }
            assert forall|i: int| 0 <= i < r.len() implies exists|m: int|
                0 <= m < k && raw[m] == #[trigger] r[i] by {
                if i < acc.len() {
                    assert(r[i] == acc[i]);
                    let m = choose|m: int| 0 <= m < k - 1 && raw[m] == acc[i];
                    assert(raw[m] == r[i]);
                } else {
                    assert(raw[k - 1] == r[i]);
                }
            }
            assert forall|m: int| 0 <= m < k && raw[m].len() > 0 implies r.contains(
                #[trigger] raw[m],
            ) by {
                if m < k - 1 {
                    assert(acc.contains(raw[m]));
                    let x = choose|x: int| 0 <= x < acc.len() && acc[x] == raw[m];
                    assert(r[x] == raw[m]);
                } else {
                    assert(r[r.len() - 1] == raw[m]);
                }
            }
        } else {
            assert forall|i: int| 0 <= i < acc.len() implies exists|m: int|
                0 <= m < k && raw[m] == #[trigger] acc[i] by {
                let m = choose|m: int| 0 <= m < k - 1 && raw[m] == acc[i];
                assert(raw[m] == acc[i]);
            }
        }
    }
}

/// Every non-empty placeholder name of the template is among the extracted
/// names, and every extracted name is the name of some placeholder.
pub proof fn law_param_names_complete(t: Seq<char>)
    ensures
        forall|i: int|
            0 <= i < spans(t).len() && name_of(t, i).len() > 0 ==> param_names_spec(t).contains(
                #[trigger] name_of(t, i),
            ),
        forall|j: int|
            0 <= j < param_names_spec(t).len() ==> exists|i: int|
                0 <= i < spans(t).len() && name_of(t, i) == #[trigger] param_names_spec(t)[j],
{
    let raw = raw_names(t);
    lemma_distinct_names(raw, raw.len() as int);
    assert forall|i: int| 0 <= i < spans(t).len() && name_of(t, i).len() > 0 implies param_names_spec(
        t,
    ).contains(#[trigger] name_of(t, i)) by {
        assert(raw[i] == name_of(t, i));
    }
    assert forall|j: int| 0 <= j < param_names_spec(t).len() implies exists|i: int|
        0 <= i < spans(t).len() && name_of(t, i) == #[trigger] param_names_spec(t)[j] by {
        let m = choose|m: int| 0 <= m < raw.len() && raw[m] == param_names_spec(t)[j];
        assert(name_of(t, m) == raw[m]);
    }
}


// ---------------------------------------------------------------------------
// Detecting parameters
// ---------------------------------------------------------------------------

/// Whether some parameter is named `n`.
pub open spec fn has_param_named(ps: Seq<ParamModel>, n: Seq<char>) -> bool {
    exists|i: int| 0 <= i < ps.len() && (#[trigger] ps[i]).name == n
}

/// `ps` after adding, for each of the first `k` names in turn, an empty
/// parameter of that name unless one is already there.
pub open spec fn with_names(ps: Seq<ParamModel>, names: Seq<Seq<char>>, k: int) -> Seq<ParamModel>
    decreases k,
{
    if k <= 0 {
        ps
    } else {
        let acc = with_names(ps, names, k - 1);
        if has_param_named(acc, names[k - 1]) {
            acc
        } else {
            acc.push(ParamModel { name: names[k - 1], value: Seq::empty() })
        }
    }
}

/// The parameters after "Detect params" on a template: an empty parameter is
/// added for each placeholder name that has none yet.
pub open spec fn synced_params(template: Seq<char>, ps: Seq<ParamModel>) -> Seq<ParamModel> {
    with_names(ps, param_names_spec(template), param_names_spec(template).len() as int)
}

/// Whether some parameter in `params` is named `name`.
fn has_param(params: &Vec<Param>, name: &String) -> (r: bool)
    ensures
        r == has_param_named(params_model(params@), name@),
{
    let ghost ps = params_model(params@);
    let mut i: usize = 0;
    while i < params.len()
        invariant
            0 <= i <= params@.len(),
            ps == params_model(params@),
            forall|j: int| 0 <= j < i ==> (#[trigger] ps[j]).name != name@,
        decreases params.len() - i,
    {
        if params[i].name == *name {
            assert(ps[i as int].name == name@);
            return true;
        }
        i = i + 1;
    }
    false
}

/// Adds an empty parameter for each placeholder name of `template` that has
/// no parameter yet, in order of first appearance.
pub fn sync_params(template: &str, params: &mut Vec<Param>)
    ensures
        params_model(final(params)@) == synced_params(template@, params_model(old(params)@)),
{
    let names = extract_param_names(template);
    let ghost ns = param_names_spec(template@);
    let ghost ps0 = params_model(params@);
    let mut k: usize = 0;
    while k < names.len()
        invariant
            0 <= k <= names@.len(),
            strings_model(names@) == ns,
            params_model(params@) == with_names(ps0, ns, k as int),
        decreases names.len() - k,
    {
        assert(names@[k as int]@ == ns[k as int]);
        if !has_param(params, &names[k]) {
            let ghost before = params_model(params@);
            params.push(Param { name: names[k].clone(), value: String::new() });
            assert(params_model(params@) =~= before.push(
                ParamModel { name: ns[k as int], value: Seq::empty() },
            ));
        }
        k = k + 1;
    }
}

proof fn lemma_with_names(ps: Seq<ParamModel>, names: Seq<Seq<char>>, k: int)
    requires
        0 <= k <= names.len(),
    ensures
        with_names(ps, names, k).len() >= ps.len(),
        with_names(ps, names, k).take(ps.len() as int) == ps,
        forall|j: int| 0 <= j < k ==> has_param_named(with_names(ps, names, k), #[trigger] names[j]),
        forall|n: Seq<char>| has_param_named(ps, n) ==> #[trigger] has_param_named(with_names(ps, names, k), n),
        (forall|j: int| 0 <= j < k ==> has_param_named(ps, #[trigger] names[j])) ==> with_names(
            ps,
            names,
            k,
        ) == ps,
    decreases k,
{
    if k == 0 {
        assert(ps.take(ps.len() as int) =~= ps);
    } else {
        lemma_with_names(ps, names, k - 1);
        let acc = with_names(ps, names, k - 1);
        if !has_param_named(acc, names[k - 1]) {
            let r = acc.push(ParamModel { name: names[k - 1], value: Seq::empty() });
            assert(r.take(ps.len() as int) =~= acc.take(ps.len() as int));
            assert(r[r.len() - 1].name == names[k - 1]);
            assert forall|j: int| 0 <= j < k implies has_param_named(r, #[trigger] names[j]) by {
                if j < k - 1 {
                    let x = choose|x: int| 0 <= x < acc.len() && (#[trigger] acc[x]).name == names[j];
                    assert(r[x] == acc[x]);
                }
            }
            assert forall|n: Seq<char>| has_param_named(ps, n) implies #[trigger] has_param_named(r, n) by {
                let x = choose|x: int| 0 <= x < acc.len() && (#[trigger] acc[x]).name == n;
                assert(r[x] == acc[x]);
            }
        }
    }
}

/// After "Detect params" every placeholder name of the template has a
/// parameter, the parameters that were there are kept as they were and in
/// front, and detecting again adds nothing.
pub proof fn law_sync_params(template: Seq<char>, ps: Seq<ParamModel>)
    ensures
        forall|j: int|
            0 <= j < param_names_spec(template).len() ==> has_param_named(
                synced_params(template, ps),
                #[trigger] param_names_spec(template)[j],
            ),
        synced_params(template, ps).len() >= ps.len(),
        synced_params(template, ps).take(ps.len() as int) == ps,
        synced_params(template, synced_params(template, ps)) == synced_params(template, ps),
{
    let names = param_names_spec(template);
    lemma_with_names(ps, names, names.len() as int);
    let s = synced_params(template, ps);
    lemma_with_names(s, names, names.len() as int);
}

// ---------------------------------------------------------------------------
// Filling one placeholder
// ---------------------------------------------------------------------------

/// `s` holds no brace.
pub open spec fn brace_free(s: Seq<char>) -> bool {
    forall|j: int| 0 <= j < s.len() ==> !is_brace(#[trigger] s[j])
}

/// A run of non-braces from `k` that stops at `e` (a brace or the end) ends at `e`.
proof fn lemma_brace_free_run(t: Seq<char>, k: int, e: int)
    requires
        0 <= k <= e <= t.len(),
        forall|j: int| k <= j < e ==> !is_brace(#[trigger] t[j]),
        e == t.len() || is_brace(t[e]),
    ensures
        brace_free_end(t, k) == e,
    decreases e - k,
{
    if k < e {
        lemma_brace_free_run(t, k + 1, e);
    }
}

/// No placeholder starts inside a run of non-braces.
proof fn lemma_spans_skip(t: Seq<char>, p: int, q: int)
    requires
        0 <= p <= q <= t.len(),
        forall|j: int| p <= j < q ==> !is_brace(#[trigger] t[j]),
    ensures
        spans_from(t, p) == spans_from(t, q),
    decreases q - p,
{
    if p < q {
        assert(!is_brace(t[p]));
        assert(!placeholder_at(t, p));
        lemma_spans_skip(t, p + 1, q);
    }
}

/// The parameter found for `name` is the first one of that name.
proof fn lemma_lookup_first(ps: Seq<ParamModel>, name: Seq<char>, k: int)
    requires
        0 <= k < ps.len(),
        ps[k].name == name,
        forall|j: int| 0 <= j < k ==> (#[trigger] ps[j]).name != name,
    ensures
        lookup(ps, name) == Some(ps[k].value),
    decreases k,
{
    if k > 0 {
        assert(ps[0].name != name);
        let rest = ps.drop_first();
        assert forall|j: int| 0 <= j < k - 1 implies (#[trigger] rest[j]).name != name by {
            assert(rest[j] == ps[j + 1]);
        }
        lemma_lookup_first(rest, name, k - 1);
    }
}

/// No parameter is found for a name no parameter has.
proof fn lemma_lookup_none(ps: Seq<ParamModel>, name: Seq<char>)
    requires
        forall|j: int| 0 <= j < ps.len() ==> (#[trigger] ps[j]).name != name,
    ensures
        lookup(ps, name) is None,
    decreases ps.len(),
{
    if ps.len() > 0 {
        let rest = ps.drop_first();
        assert forall|j: int| 0 <= j < rest.len() implies (#[trigger] rest[j]).name != name by {
            assert(rest[j] == ps[j + 1]);
        }
        lemma_lookup_none(rest, name);
    }
}

/// A text with one placeholder between brace-free texts: it is that one
/// placeholder, the text before it, and the text after it.
proof fn lemma_one_placeholder(a: Seq<char>, x: Seq<char>, b: Seq<char>, ps: Seq<ParamModel>)
    requires
        brace_free(a),
        brace_free(x),
        brace_free(b),
        x.len() > 0,
    ensures
        spans(a + seq!['{', '{'] + x + seq!['}', '}'] + b).len() == 1,
        name_of(a + seq!['{', '{'] + x + seq!['}', '}'] + b, 0) == trim(x),
        format_spec(a + seq!['{', '{'] + x + seq!['}', '}'] + b, ps) == a + replacement(
            a + seq!['{', '{'] + x + seq!['}', '}'] + b,
            ps,
            0,
        ) + b,
        whole(a + seq!['{', '{'] + x + seq!['}', '}'] + b, 0) == seq!['{', '{'] + x + seq![
            '}',
            '}',
        ],
{
    let t = a + seq!['{', '{'] + x + seq!['}', '}'] + b;
    let s = a.len() as int;
    let e = s + x.len() + 4;
    assert forall|j: int| 0 <= j < s implies !is_brace(#[trigger] t[j]) by {
        assert(t[j] == a[j]);
    }
    lemma_spans_skip(t, 0, s);
    assert forall|j: int| s + 2 <= j < e - 2 implies !is_brace(#[trigger] t[j]) by {
        assert(t[j] == x[j - s - 2]);
    }
    assert(t[e - 2] == '}');
    lemma_brace_free_run(t, s + 2, e - 2);
    assert(placeholder_at(t, s));
    assert(placeholder_end(t, s) == e);
    assert forall|j: int| e <= j < t.len() implies !is_brace(#[trigger] t[j]) by {
        assert(t[j] == b[j - e]);
    }
    lemma_spans_skip(t, e, t.len() as int);
    assert(spans_from(t, t.len() as int) =~= Seq::<(int, int)>::empty());
    assert(spans_from(t, s) =~= seq![(s, e)]);
    assert(spans(t) =~= seq![(s, e)]);
    assert(inner(t, 0) =~= x);
    assert(whole(t, 0) =~= seq!['{', '{'] + x + seq!['}', '}']);
    assert(piece(t, 0) =~= a);
    assert(piece(t, 1) =~= b);
    assert(formatted_prefix(t, ps, 0) =~= Seq::<char>::empty());
    assert(formatted_prefix(t, ps, 1) =~= a + replacement(t, ps, 0));
}

/// A placeholder whose name (its inside without surrounding whitespace) is
/// the name of some parameter is replaced by the value of the first such
/// parameter, whatever that value is, the empty text included; the text
/// around it is kept.
pub proof fn law_format_fills_named_placeholder(
    a: Seq<char>,
    x: Seq<char>,
    b: Seq<char>,
    ps: Seq<ParamModel>,
    k: int,
)
    requires
        brace_free(a),
        brace_free(x),
        brace_free(b),
        x.len() > 0,
        0 <= k < ps.len(),
        ps[k].name == trim(x),
        forall|j: int| 0 <= j < k ==> (#[trigger] ps[j]).name != trim(x),
    ensures
        format_spec(a + seq!['{', '{'] + x + seq!['}', '}'] + b, ps) == a + ps[k].value + b,
{
    lemma_one_placeholder(a, x, b, ps);
    lemma_lookup_first(ps, trim(x), k);
}

/// A placeholder whose name no parameter has is kept as it is.
pub proof fn law_format_keeps_unknown_placeholder(
    a: Seq<char>,
    x: Seq<char>,
    b: Seq<char>,
    ps: Seq<ParamModel>,
)
    requires
        brace_free(a),
        brace_free(x),
        brace_free(b),
        x.len() > 0,
        forall|j: int| 0 <= j < ps.len() ==> (#[trigger] ps[j]).name != trim(x),
    ensures
        format_spec(a + seq!['{', '{'] + x + seq!['}', '}'] + b, ps) == a + seq!['{', '{'] + x
            + seq!['}', '}'] + b,
{
    lemma_one_placeholder(a, x, b, ps);
    lemma_lookup_none(ps, trim(x));
    assert(a + seq!['{', '{'] + x + seq!['}', '}'] + b =~= a + (seq!['{', '{'] + x + seq![
        '}',
        '}',
    ]) + b);
}

} // verus!
