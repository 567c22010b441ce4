//! Character classes and low-level scanning helpers for the matcher grammar,
//! together with the decimal machinery used by numbered captures.

use vstd::prelude::*;
use vstd::arithmetic::div_mod::lemma_fundamental_div_mod_converse;

verus! {

/// Controls which capture forms are syntactically legal.
///
/// When the matcher output must bind to named struct fields, every capture has
/// to carry a name; positional targets also allow the unnamed forms.
#[derive(Clone, Copy, Debug, PartialEq, Eq, Structural)]
pub enum FieldType {
    /// Captures must be named: `{name}`, `{*:name}`, `{3:name}`.
    Named,
    /// All capture forms are allowed, including `{}`, `{*}` and `{3}`.
    Unnamed,
}

/// Characters with no special meaning in the matcher grammar: everything
/// except `/ ? & # { } ! =`.
pub open spec fn is_lit_char(c: char) -> bool {
    !(c == '/' || c == '?' || c == '&' || c == '#' || c == '{' || c == '}' || c == '!' || c == '=')
}

/// Decimal digits.
pub open spec fn is_digit_char(c: char) -> bool {
    '0' <= c && c <= '9'
}

/// Characters allowed inside an identifier (a capture name or a query key).
pub open spec fn is_ident_char(c: char) -> bool {
    ('a' <= c && c <= 'z') || ('A' <= c && c <= 'Z') || is_digit_char(c) || c == '_'
}

/// Characters that may start an identifier; as in Rust, a digit may not.
pub open spec fn is_ident_start(c: char) -> bool {
    is_ident_char(c) && !is_digit_char(c)
}

/// Executable mirror of [`is_lit_char`].
pub fn lit_char(c: char) -> (r: bool)
    ensures
        r == is_lit_char(c),
{
    !(c == '/' || c == '?' || c == '&' || c == '#' || c == '{' || c == '}' || c == '!' || c == '=')
}

/// Executable mirror of [`is_digit_char`].
pub fn digit_char_test(c: char) -> (r: bool)
    ensures
        r == is_digit_char(c),
{
    '0' <= c && c <= '9'
}

/// Executable mirror of [`is_ident_char`].
pub fn ident_char(c: char) -> (r: bool)
    ensures
        r == is_ident_char(c),
{
    ('a' <= c && c <= 'z') || ('A' <= c && c <= 'Z') || ('0' <= c && c <= '9') || c == '_'
}

/// [`is_lit_char`] as a first-class predicate, so that every mention denotes
/// the same function.
pub open spec fn lit_pred() -> spec_fn(char) -> bool {
    |c: char| is_lit_char(c)
}

/// [`is_ident_char`] as a first-class predicate.
pub open spec fn ident_pred() -> spec_fn(char) -> bool {
    |c: char| is_ident_char(c)
}

/// [`is_digit_char`] as a first-class predicate.
pub open spec fn digit_pred() -> spec_fn(char) -> bool {
    |c: char| is_digit_char(c)
}

/// Length of the longest prefix of `s` whose characters all satisfy `p`.
pub open spec fn run_len(s: Seq<char>, p: spec_fn(char) -> bool) -> nat
    decreases s.len(),
{
    if s.len() > 0 && p(s[0]) {
        1 + run_len(s.skip(1), p)
    } else {
        0
    }
}

pub proof fn lemma_run_len_bound(s: Seq<char>, p: spec_fn(char) -> bool)
    ensures
        run_len(s, p) <= s.len(),
    decreases s.len(),
{
    if s.len() > 0 && p(s[0]) {
        lemma_run_len_bound(s.skip(1), p);
    }
}

/// `run_len` is the unique `m` such that the first `m` characters satisfy `p`
/// and the following character, if any, does not.
pub proof fn lemma_run_len_is(s: Seq<char>, p: spec_fn(char) -> bool, m: nat)
    requires
        m <= s.len(),
        forall|k: int| 0 <= k < m ==> p(s[k]),
        m < s.len() ==> !p(s[m as int]),
    ensures
        run_len(s, p) == m,
    decreases s.len(),
{
    if m == 0 {
    } else {
        assert(p(s[0]));
        assert(forall|k: int| 0 <= k < m - 1 ==> s.skip(1)[k] == s[k + 1]);
        lemma_run_len_is(s.skip(1), p, (m - 1) as nat);
    }
}

/// Every character inside the run satisfies `p`, and the character just past
/// the run, if any, does not.
pub proof fn lemma_run_len_chars(s: Seq<char>, p: spec_fn(char) -> bool)
    ensures
        run_len(s, p) <= s.len(),
        forall|k: int| 0 <= k < run_len(s, p) ==> p(s[k]),
        run_len(s, p) < s.len() ==> !p(s[run_len(s, p) as int]),
    decreases s.len(),
{
    lemma_run_len_bound(s, p);
    if s.len() > 0 && p(s[0]) {
        lemma_run_len_chars(s.skip(1), p);
        assert(forall|k: int| 1 <= k < run_len(s, p) ==> s[k] == s.skip(1)[k - 1]);
    }
}

/// Scans the literal run starting at `pos`, returning the position just past
/// its last character.
pub fn scan_lit(i: &str, pos: usize) -> (end: usize)
    requires
        pos <= i@.len(),
    ensures
        pos <= end <= i@.len(),
        end - pos == run_len(i@.skip(pos as int), lit_pred()),
{
    let len = i.unicode_len();
    let mut end = pos;
    while end < len && lit_char(i.get_char(end))
        invariant
            pos <= end <= len,
            len == i@.len(),
            forall|k: int| pos <= k < end ==> is_lit_char(i@[k]),
        decreases len - end,
    {
        end = end + 1;
    }
    proof {
        let s = i@.skip(pos as int);
        assert(forall|k: int| 0 <= k < end - pos ==> s[k] == i@[k + pos]);
        if (end as int) < len {
            assert(s[end - pos] == i@[end as int]);
        }
        lemma_run_len_is(s, lit_pred(), (end - pos) as nat);
    }
    end
}

/// Scans the identifier run starting at `pos`.
pub fn scan_ident(i: &str, pos: usize) -> (end: usize)
    requires
        pos <= i@.len(),
    ensures
        pos <= end <= i@.len(),
        end - pos == run_len(i@.skip(pos as int), ident_pred()),
{
    let len = i.unicode_len();
    let mut end = pos;
    while end < len && ident_char(i.get_char(end))
        invariant
            pos <= end <= len,
            len == i@.len(),
            forall|k: int| pos <= k < end ==> is_ident_char(i@[k]),
        decreases len - end,
    {
        end = end + 1;
    }
    proof {
        let s = i@.skip(pos as int);
        assert(forall|k: int| 0 <= k < end - pos ==> s[k] == i@[k + pos]);
        if (end as int) < len {
            assert(s[end - pos] == i@[end as int]);
        }
        lemma_run_len_is(s, ident_pred(), (end - pos) as nat);
    }
    end
}

/// Scans the digit run starting at `pos`.
pub fn scan_digits(i: &str, pos: usize) -> (end: usize)
    requires
        pos <= i@.len(),
    ensures
        pos <= end <= i@.len(),
        end - pos == run_len(i@.skip(pos as int), digit_pred()),
{
    let len = i.unicode_len();
    let mut end = pos;
    while end < len && digit_char_test(i.get_char(end))
        invariant
            pos <= end <= len,
            len == i@.len(),
            forall|k: int| pos <= k < end ==> is_digit_char(i@[k]),
        decreases len - end,
    {
        end = end + 1;
    }
    proof {
        let s = i@.skip(pos as int);
        assert(forall|k: int| 0 <= k < end - pos ==> s[k] == i@[k + pos]);
        if (end as int) < len {
            assert(s[end - pos] == i@[end as int]);
        }
        lemma_run_len_is(s, digit_pred(), (end - pos) as nat);
    }
    end
}

/// Numeric value of one decimal digit character.
pub open spec fn digit_val(c: char) -> nat {
    if c == '0' { 0 }
    else if c == '1' { 1 }
    else if c == '2' { 2 }
    else if c == '3' { 3 }
    else if c == '4' { 4 }
    else if c == '5' { 5 }
    else if c == '6' { 6 }
    else if c == '7' { 7 }
    else if c == '8' { 8 }
    else { 9 }
}

/// The decimal digit character for a value below ten.
pub open spec fn digit_of(d: nat) -> char {
    if d == 0 { '0' }
    else if d == 1 { '1' }
    else if d == 2 { '2' }
    else if d == 3 { '3' }
    else if d == 4 { '4' }
    else if d == 5 { '5' }
    else if d == 6 { '6' }
    else if d == 7 { '7' }
    else if d == 8 { '8' }
    else { '9' }
}

/// Value of a digit string read left to right.
pub open spec fn digits_val(ds: Seq<char>) -> nat
    decreases ds.len(),
{
    if ds.len() == 0 {
        0
    } else {
        digits_val(ds.drop_last()) * 10 + digit_val(ds.last())
    }
}

/// A non-empty digit string in canonical form: no leading zero unless the
/// string is exactly `0`.
pub open spec fn is_canonical_digits(ds: Seq<char>) -> bool {
    &&& ds.len() > 0
    &&& forall|k: int| 0 <= k < ds.len() ==> is_digit_char(ds[k])
    &&& (ds[0] == '0' ==> ds.len() == 1)
}

/// Canonical decimal rendering of a number.
pub open spec fn dec_str(n: nat) -> Seq<char>
    decreases n,
{
    if n < 10 {
        seq![digit_of(n)]
    } else {
        dec_str(n / 10) + seq![digit_of(n % 10)]
    }
}

/// Executable mirror of [`digit_val`].
pub fn digit_value(c: char) -> (r: usize)
    requires
        is_digit_char(c),
    ensures
        r == digit_val(c),
        r < 10,
{
    if c == '0' { 0 }
    else if c == '1' { 1 }
    else if c == '2' { 2 }
    else if c == '3' { 3 }
    else if c == '4' { 4 }
    else if c == '5' { 5 }
    else if c == '6' { 6 }
    else if c == '7' { 7 }
    else if c == '8' { 8 }
    else { 9 }
}

proof fn lemma_digit_round_trip(c: char)
    requires
        is_digit_char(c),
    ensures
        digit_of(digit_val(c)) == c,
{
}

/// A digit string that does not start with `0` has a positive value.
pub proof fn lemma_digits_val_pos(ds: Seq<char>)
    requires
        ds.len() > 0,
        forall|k: int| 0 <= k < ds.len() ==> is_digit_char(ds[k]),
        ds[0] != '0',
    ensures
        digits_val(ds) >= 1,
    decreases ds.len(),
{
    if ds.len() == 1 {
        assert(ds.last() == ds[0]);
        assert(digits_val(ds.drop_last()) == 0);
        assert(digit_val(ds[0]) >= 1);
    } else {
        assert(forall|k: int| 0 <= k < ds.drop_last().len() ==> ds.drop_last()[k] == ds[k]);
        lemma_digits_val_pos(ds.drop_last());
    }
}

/// Rendering the value of a canonical digit string gives the string back.
pub proof fn lemma_canonical_digits_round_trip(ds: Seq<char>)
    requires
        is_canonical_digits(ds),
    ensures
        dec_str(digits_val(ds)) == ds,
    decreases ds.len(),
{
    if ds.len() == 1 {
        assert(ds.last() == ds[0]);
        assert(digits_val(ds.drop_last()) == 0);
        assert(digits_val(ds) == digit_val(ds[0]));
        lemma_digit_round_trip(ds[0]);
        assert(dec_str(digits_val(ds)) =~= ds);
    } else {
        let front = ds.drop_last();
        assert(forall|k: int| 0 <= k < front.len() ==> front[k] == ds[k]);
        assert(ds[0] != '0');
        lemma_digits_val_pos(front);
        let a = digits_val(front);
        let b = digit_val(ds.last());
        let v = digits_val(ds);
        assert(v == a * 10 + b);
        lemma_fundamental_div_mod_converse(v as int, 10, a as int, b as int);
        assert(v / 10 == a);
        assert(v % 10 == b);
        assert(v >= 10) by {
            assert(a >= 1);
            assert(a * 10 >= 10) by (nonlinear_arith)
                requires a >= 1;
        }
        lemma_canonical_digits_round_trip(front);
        lemma_digit_round_trip(ds.last());
        assert(dec_str(v) == front + seq![ds.last()]);
        assert(dec_str(v) =~= ds);
    }
}

/// A prefix of a digit string never has a larger value than the whole string.
pub proof fn lemma_digits_val_prefix(ds: Seq<char>, k: nat)
    requires
        k <= ds.len(),
    ensures
        digits_val(ds.take(k as int)) <= digits_val(ds),
    decreases ds.len() - k,
{
    if k < ds.len() {
        lemma_digits_val_prefix(ds, k + 1);
        let longer = ds.take(k as int + 1);
        assert(longer.drop_last() =~= ds.take(k as int));
        assert(digits_val(ds.take(k as int)) * 10 + digit_val(longer.last()) == digits_val(longer));
        assert(digits_val(ds.take(k as int)) <= digits_val(ds.take(k as int)) * 10) by (nonlinear_arith);
    } else {
        assert(ds.take(k as int) =~= ds);
    }
}

} // verus!
