//! Character-level text helpers: Unicode whitespace, trimming, masking of
//! secrets, and file-name sanitising.

use vstd::prelude::*;

verus! {

/// `String::push` appends one character.
pub assume_specification[ String::push ](s: &mut String, ch: char)
    ensures
        final(s)@ == old(s)@.push(ch),
;

/// The characters of `s`, in order.
pub fn chars_of(s: &str) -> (v: Vec<char>)
    ensures
        v@ == s@,
{
    broadcast use vstd::string::group_string_axioms;
    let mut v: Vec<char> = Vec::new();
    for c in it: s.chars()
        invariant
            it.seq() == s@,
            v@ == it.seq().take(it.index()),
    {
        v.push(c);
        assert(v@ =~= it.seq().take(it.index() + 1));
    }
    assert(v@ =~= s@);
    v
}


/// A string holding the characters of `v`, in order.
pub fn string_from_chars(v: &Vec<char>) -> (s: String)
    ensures
        s@ == v@,
{
    let mut s = String::new();
    let mut i: usize = 0;
    while i < v.len()
        invariant
            0 <= i <= v.len(),
            s@ == v@.take(i as int),
        decreases v.len() - i,
    {
        s.push(v[i]);
        i = i + 1;
        assert(s@ =~= v@.take(i as int));
    }
    assert(v@.take(v@.len() as int) =~= v@);
    s
}

// ---------------------------------------------------------------------------
// Whitespace and trimming
// ---------------------------------------------------------------------------

/// Unicode `White_Space`: the characters that `char::is_whitespace` accepts and
/// that `str::trim` removes.
pub open spec fn is_white_space(c: char) -> bool {
    let n = c as u32;
    (0x9 <= n <= 0xd) || n == 0x20 || n == 0x85 || n == 0xa0 || n == 0x1680 || (0x2000 <= n
        <= 0x200a) || n == 0x2028 || n == 0x2029 || n == 0x202f || n == 0x205f || n == 0x3000
}

/// Whether `c` is Unicode whitespace.
pub fn is_white_space_char(c: char) -> (r: bool)
    ensures
        r == is_white_space(c),
{
    let n = c as u32;
    (0x9 <= n && n <= 0xd) || n == 0x20 || n == 0x85 || n == 0xa0 || n == 0x1680 || (0x2000
        <= n && n <= 0x200a) || n == 0x2028 || n == 0x2029 || n == 0x202f || n == 0x205f || n
        == 0x3000
}

/// `s` without its leading whitespace.
pub open spec fn trim_start(s: Seq<char>) -> Seq<char>
    decreases s.len(),
{
    if s.len() > 0 && is_white_space(s[0]) {
        trim_start(s.drop_first())
    } else {
        s
    }
}

/// `s` without its trailing whitespace.
pub open spec fn trim_end(s: Seq<char>) -> Seq<char>
    decreases s.len(),
{
    if s.len() > 0 && is_white_space(s.last()) {
        trim_end(s.drop_last())
    } else {
        s
    }
}

/// `s` without leading and trailing whitespace, as `str::trim` gives it.
pub open spec fn trim(s: Seq<char>) -> Seq<char> {
    trim_end(trim_start(s))
}

/// Whether every character of `s` is whitespace.
pub open spec fn all_white_space(s: Seq<char>) -> bool {
    forall|i: int| 0 <= i < s.len() ==> #[trigger] is_white_space(s[i])
}

/// Skipping a whitespace prefix that ends at a non-whitespace character (or at
/// the end) is trimming the start.
pub proof fn lemma_trim_start_at(s: Seq<char>, a: int)
    requires
        0 <= a <= s.len(),
        forall|i: int| 0 <= i < a ==> #[trigger] is_white_space(s[i]),
        a == s.len() || !is_white_space(s[a]),
    ensures
        trim_start(s) == s.skip(a),
    decreases a,
{
    if a == 0 {
        assert(s.skip(0) =~= s);
    } else {
        assert(is_white_space(s[0]));
        let t = s.drop_first();
        assert forall|i: int| 0 <= i < a - 1 implies #[trigger] is_white_space(t[i]) by {
            assert(t[i] == s[i + 1]);
        }
        lemma_trim_start_at(t, a - 1);
        assert(t.skip(a - 1) =~= s.skip(a));
    }
}

/// Taking everything before a whitespace suffix that starts after a
/// non-whitespace character (or at the start) is trimming the end.
pub proof fn lemma_trim_end_at(s: Seq<char>, b: int)
    requires
        0 <= b <= s.len(),
        forall|i: int| b <= i < s.len() ==> #[trigger] is_white_space(s[i]),
        b == 0 || !is_white_space(s[b - 1]),
    ensures
        trim_end(s) == s.take(b),
    decreases s.len() - b,
{
    if b == s.len() {
        assert(s.take(b) =~= s);
    } else {
        assert(is_white_space(s.last()));
        let t = s.drop_last();
        assert forall|i: int| b <= i < t.len() implies #[trigger] is_white_space(t[i]) by {
            assert(t[i] == s[i]);
        }
        lemma_trim_end_at(t, b);
        assert(t.take(b) =~= s.take(b));
    }
}

/// Trimming removes only whitespace: the trimmed text sits inside `s` with
/// whitespace on both sides.
pub proof fn lemma_trim_shape(s: Seq<char>)
    ensures
        exists|a: int, b: int|
            0 <= a <= b <= s.len() && trim(s) == s.subrange(a, b) && all_white_space(
                s.subrange(0, a),
            ) && all_white_space(s.subrange(b, s.len() as int)),
        trim(s).len() > 0 ==> !is_white_space(trim(s)[0]) && !is_white_space(trim(s).last()),
{
    let a = first_non_white(s, 0);
    lemma_first_non_white(s, 0);
    lemma_trim_start_at(s, a);
    let t = s.skip(a);
    let b = last_non_white_end(t, t.len() as int);
    lemma_last_non_white_end(t, t.len() as int);
    lemma_trim_end_at(t, b);
    assert(trim(s) =~= s.subrange(a, a + b));
    assert forall|i: int| 0 <= i < s.len() - (a + b) implies #[trigger] is_white_space(
        s.subrange(a + b, s.len() as int)[i],
    ) by {
        assert(s.subrange(a + b, s.len() as int)[i] == t[b + i]);
    }
    assert forall|i: int| 0 <= i < a implies #[trigger] is_white_space(s.subrange(0, a)[i]) by {
        assert(s.subrange(0, a)[i] == s[i]);
    }
    assert(0 <= a <= a + b <= s.len() && trim(s) == s.subrange(a, a + b) && all_white_space(
        s.subrange(0, a),
    ) && all_white_space(s.subrange(a + b, s.len() as int)));
    if trim(s).len() > 0 {
        assert(trim(s)[0] == s[a]);
        assert(trim(s).last() == t[b - 1]);
    }
}

/// The index of the first non-whitespace character at or after `from`, or the length.
pub open spec fn first_non_white(s: Seq<char>, from: int) -> int
    decreases s.len() - from,
{
    if from >= s.len() || from < 0 {
        if from < 0 { 0 } else { s.len() as int }
    } else if is_white_space(s[from]) {
        first_non_white(s, from + 1)
    } else {
        from
    }
}

pub proof fn lemma_first_non_white(s: Seq<char>, from: int)
    requires
        0 <= from <= s.len(),
        forall|i: int| 0 <= i < from ==> #[trigger] is_white_space(s[i]),
    ensures
        from <= first_non_white(s, from) <= s.len(),
        forall|i: int| 0 <= i < first_non_white(s, from) ==> #[trigger] is_white_space(s[i]),
        first_non_white(s, from) == s.len() || !is_white_space(s[first_non_white(s, from)]),
    decreases s.len() - from,
{
    if from < s.len() && is_white_space(s[from]) {
        lemma_first_non_white(s, from + 1);
    }
}

/// One past the index of the last non-whitespace character before `to`, or 0.
pub open spec fn last_non_white_end(s: Seq<char>, to: int) -> int
    decreases to,
{
    if to <= 0 {
        0
    } else if to <= s.len() && is_white_space(s[to - 1]) {
        last_non_white_end(s, to - 1)
    } else {
        to
    }
}

pub proof fn lemma_last_non_white_end(s: Seq<char>, to: int)
    requires
        0 <= to <= s.len(),
        forall|i: int| to <= i < s.len() ==> #[trigger] is_white_space(s[i]),
    ensures
        0 <= last_non_white_end(s, to) <= to,
        forall|i: int| last_non_white_end(s, to) <= i < s.len() ==> #[trigger] is_white_space(s[i]),
        last_non_white_end(s, to) == 0 || !is_white_space(s[last_non_white_end(s, to) - 1]),
    decreases to,
{
    if to > 0 && is_white_space(s[to - 1]) {
        lemma_last_non_white_end(s, to - 1);
    }
}

/// The characters of `v` without leading and trailing whitespace.
pub fn trim_chars(v: &Vec<char>) -> (r: Vec<char>)
    ensures
        r@ == trim(v@),
{
    let n = v.len();
    let mut a: usize = 0;
    while a < n && is_white_space_char(v[a])
        invariant
            n == v@.len(),
            0 <= a <= n,
            forall|i: int| 0 <= i < a ==> #[trigger] is_white_space(v@[i]),
        decreases n - a,
    {
        a = a + 1;
    }
    let mut b: usize = n;
    while b > a && is_white_space_char(v[b - 1])
        invariant
            n == v@.len(),
            0 <= a <= b <= n,
            forall|i: int| b <= i < n ==> #[trigger] is_white_space(v@[i]),
        decreases b,
    {
        b = b - 1;
    }
    let mut r: Vec<char> = Vec::new();
    let mut i: usize = a;
    while i < b
        invariant
            n == v@.len(),
            0 <= a <= i <= b <= n,
            r@ == v@.subrange(a as int, i as int),
        decreases b - i,
    {
        r.push(v[i]);
        i = i + 1;
        assert(r@ =~= v@.subrange(a as int, i as int));
    }
    proof {
        lemma_trim_start_at(v@, a as int);
        let t = v@.skip(a as int);
        assert forall|k: int| (b - a) <= k < t.len() implies #[trigger] is_white_space(t[k]) by {
            assert(t[k] == v@[a + k]);
        }
        if b > a {
            assert(t[b - a - 1] == v@[b - 1]);
        }
        lemma_trim_end_at(t, (b - a) as int);
        assert(t.take((b - a) as int) =~= v@.subrange(a as int, b as int));
    }
    r
}

/// `s` without leading and trailing whitespace.
pub fn trim_string(s: &str) -> (r: String)
    ensures
        r@ == trim(s@),
{
    let v = chars_of(s);
    let t = trim_chars(&v);
    string_from_chars(&t)
}

// ---------------------------------------------------------------------------
// Masking and file names
// ---------------------------------------------------------------------------

/// What a masked secret shows in place of `c`: line breaks stay, every other
/// character becomes `*`.
pub open spec fn mask_char(c: char) -> char {
    if c == '\n' || c == '\r' {
        c
    } else {
        '*'
    }
}

/// The masked form of `s`, character by character.
pub open spec fn mask_spec(s: Seq<char>) -> Seq<char> {
    s.map_values(|c: char| mask_char(c))
}

/// Hides a secret for display: every character but `\n` and `\r` becomes `*`,
/// so the shape of the text (its length and its lines) stays visible.
pub fn mask(value: &str) -> (r: String)
    ensures
        r@ == mask_spec(value@),
{
    let v = chars_of(value);
    let mut s = String::new();
    let mut i: usize = 0;
    while i < v.len()
        invariant
            0 <= i <= v.len(),
            v@ == value@,
            s@ == mask_spec(v@.take(i as int)),
        decreases v.len() - i,
    {
        let c = v[i];
        if c == '\n' || c == '\r' {
            s.push(c);
        } else {
            s.push('*');
        }
        i = i + 1;
        assert(s@ =~= mask_spec(v@.take(i as int)));
    }
    assert(v@.take(v@.len() as int) =~= v@);
    s
}

/// Whether a file name may not hold `c`: `< > : " / \ | ? *` and the control
/// characters below U+0020.
pub open spec fn is_unsafe_file_char(c: char) -> bool {
    c == '<' || c == '>' || c == ':' || c == '"' || c == '/' || c == '\\' || c == '|' || c
        == '?' || c == '*' || (c as u32) < 32
}

/// The replacement of one character in a sanitised file name.
pub open spec fn file_char(c: char) -> char {
    if is_unsafe_file_char(c) {
        '_'
    } else {
        c
    }
}

/// The sanitised form of a name: unsafe characters become `_`, then
/// surrounding whitespace is trimmed.
pub open spec fn sanitize_spec(s: Seq<char>) -> Seq<char> {
    trim(s.map_values(|c: char| file_char(c)))
}

/// Turns a collection name into a file name: `< > : " / \ | ? *` and control
/// characters become `_`, and surrounding whitespace is removed.
pub fn sanitize_filename(s: &str) -> (r: String)
    ensures
        r@ == sanitize_spec(s@),
{
    let v = chars_of(s);
    let mut m: Vec<char> = Vec::new();
    let mut i: usize = 0;
    while i < v.len()
        invariant
            0 <= i <= v.len(),
            v@ == s@,
            m@ == v@.take(i as int).map_values(|c: char| file_char(c)),
        decreases v.len() - i,
    {
        let c = v[i];
        let unsafe_char = c == '<' || c == '>' || c == ':' || c == '"' || c == '/' || c == '\\'
            || c == '|' || c == '?' || c == '*' || (c as u32) < 32;
        if unsafe_char {
            m.push('_');
        } else {
            m.push(c);
        }
        i = i + 1;
        assert(m@ =~= v@.take(i as int).map_values(|c: char| file_char(c)));
    }
    assert(v@.take(v@.len() as int) =~= v@);
    let t = trim_chars(&m);
    string_from_chars(&t)
}


// ---------------------------------------------------------------------------
// Decimal numbers
// ---------------------------------------------------------------------------

/// The decimal digit for `d` (0 to 9).
pub open spec fn digit_char(d: nat) -> char {
    if d == 0 {
        '0'
    } else if d == 1 {
        '1'
    } else if d == 2 {
        '2'
    } else if d == 3 {
        '3'
    } else if d == 4 {
        '4'
    } else if d == 5 {
        '5'
    } else if d == 6 {
        '6'
    } else if d == 7 {
        '7'
    } else if d == 8 {
        '8'
    } else {
        '9'
    }
}

/// The decimal representation of `n`, without leading zeros, as `Display`
/// writes an unsigned integer.
pub open spec fn decimal(n: nat) -> Seq<char>
    decreases n,
{
    if n < 10 {
        seq![digit_char(n)]
    } else {
        decimal(n / 10).push(digit_char(n % 10))
    }
}

fn digit(d: u128) -> (c: char)
    requires
        d < 10,
    ensures
        c == digit_char(d as nat),
{
    if d == 0 {
        '0'
    } else if d == 1 {
        '1'
    } else if d == 2 {
        '2'
    } else if d == 3 {
        '3'
    } else if d == 4 {
        '4'
    } else if d == 5 {
        '5'
    } else if d == 6 {
        '6'
    } else if d == 7 {
        '7'
    } else if d == 8 {
        '8'
    } else {
        '9'
    }
}

/// The decimal representation of `n`.
pub fn decimal_string(n: u128) -> (s: String)
    ensures
        s@ == decimal(n as nat),
    decreases n,
{
    if n < 10 {
        let mut s = String::new();
        s.push(digit(n));
        assert(s@ =~= decimal(n as nat));
        s
    } else {
        let mut s = decimal_string(n / 10);
        s.push(digit(n % 10));
        s
    }
}

/// `prefix` followed by the decimal representation of `n`.
pub fn numbered(prefix: &str, n: u128) -> (s: String)
    ensures
        s@ == prefix@ + decimal(n as nat),
{
    let mut s = String::from_str(prefix);
    let d = decimal_string(n);
    s.append(d.as_str());
    s
}


// ---------------------------------------------------------------------------
// Laws
// ---------------------------------------------------------------------------

/// A masked secret shows nothing but its layout: it has the secret's length,
/// its line breaks where the secret has them, and `*` everywhere else.
pub proof fn law_mask_hides_all_but_layout(s: Seq<char>)
    ensures
        mask_spec(s).len() == s.len(),
        forall|i: int|
            0 <= i < s.len() ==> (#[trigger] mask_spec(s)[i] == '*' || mask_spec(s)[i] == s[i])
                && (mask_spec(s)[i] == s[i] <==> (s[i] == '\n' || s[i] == '\r' || s[i] == '*')),
{
}

/// A sanitised file name holds none of `< > : " / \ | ? *` nor a control
/// character, and neither starts nor ends with whitespace.
pub proof fn law_sanitized_names_are_safe(s: Seq<char>)
    ensures
        forall|i: int|
            0 <= i < sanitize_spec(s).len() ==> !is_unsafe_file_char(#[trigger] sanitize_spec(s)[i]),
        sanitize_spec(s).len() > 0 ==> !is_white_space(sanitize_spec(s)[0]) && !is_white_space(
            sanitize_spec(s).last(),
        ),
{
    let m = s.map_values(|c: char| file_char(c));
    lemma_trim_shape(m);
    let (a, b) = choose|a: int, b: int|
        0 <= a <= b <= m.len() && trim(m) == m.subrange(a, b) && all_white_space(m.subrange(0, a))
            && all_white_space(m.subrange(b, m.len() as int));
    assert forall|i: int| 0 <= i < sanitize_spec(s).len() implies !is_unsafe_file_char(
        #[trigger] sanitize_spec(s)[i],
    ) by {
        assert(sanitize_spec(s)[i] == m[a + i]);
        assert(m[a + i] == file_char(s[a + i]));
    }
}

} // verus!
