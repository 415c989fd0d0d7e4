//! Character-level text model shared by the parsers and naming rules.
//!
//! Every operation is stated over `Seq<char>` (the view of `str`/`String`)
//! and mirrors the behaviour of the corresponding `str` method: Unicode
//! whitespace trimming, splitting on a separator, decimal parsing with an
//! optional `+`, ASCII case folding and substring search.

use vstd::prelude::*;

verus! {

// ---------------------------------------------------------------------------
// Specifications
// ---------------------------------------------------------------------------

/// Unicode `White_Space`, exactly the set `char::is_whitespace` accepts.
pub open spec fn is_ws(c: char) -> bool {
    ||| c == '\t' || c == '\n' || c == '\u{0B}' || c == '\u{0C}' || c == '\r'
    ||| c == ' ' || c == '\u{85}' || c == '\u{A0}' || c == '\u{1680}'
    ||| ('\u{2000}' <= c && c <= '\u{200A}')
    ||| c == '\u{2028}' || c == '\u{2029}' || c == '\u{202F}' || c == '\u{205F}'
    ||| c == '\u{3000}'
}

/// Number of leading whitespace characters.
pub open spec fn lead_ws(s: Seq<char>) -> nat
    decreases s.len(),
{
    if s.len() > 0 && is_ws(s[0]) {
        1 + lead_ws(s.drop_first())
    } else {
        0
    }
}

/// Number of trailing whitespace characters.
pub open spec fn trail_ws(s: Seq<char>) -> nat
    decreases s.len(),
{
    if s.len() > 0 && is_ws(s.last()) {
        1 + trail_ws(s.drop_last())
    } else {
        0
    }
}

pub open spec fn trim_start(s: Seq<char>) -> Seq<char> {
    s.skip(lead_ws(s) as int)
}

pub open spec fn trim_end(s: Seq<char>) -> Seq<char> {
    s.take(s.len() - trail_ws(s))
}

/// `str::trim`.
pub open spec fn trim(s: Seq<char>) -> Seq<char> {
    trim_end(trim_start(s))
}

/// `str::split(sep)` for a single-character separator: every piece,
/// including empty ones at either end.
pub open spec fn split_on(s: Seq<char>, sep: char) -> Seq<Seq<char>>
    decreases s.len(),
{
    if s.len() == 0 {
        seq![Seq::<char>::empty()]
    } else {
        let p = split_on(s.drop_last(), sep);
        if s.last() == sep {
            p.push(Seq::<char>::empty())
        } else {
            p.update(p.len() - 1, p.last().push(s.last()))
        }
    }
}

pub open spec fn is_digit(c: char) -> bool {
    '0' <= c && c <= '9'
}

pub open spec fn digit_val(c: char) -> int {
    (c as int) - ('0' as int)
}

pub open spec fn all_digits(s: Seq<char>) -> bool {
    forall|i: int| 0 <= i < s.len() ==> #[trigger] is_digit(s[i])
}

/// Value of a string of decimal digits.
pub open spec fn dec_value(s: Seq<char>) -> int
    decreases s.len(),
{
    if s.len() == 0 {
        0
    } else {
        dec_value(s.drop_last()) * 10 + digit_val(s.last())
    }
}

/// The digits an unsigned `FromStr` reads: one optional leading `+` is
/// dropped.
pub open spec fn unsigned_digits(s: Seq<char>) -> Seq<char> {
    if s.len() > 0 && s[0] == '+' {
        s.drop_first()
    } else {
        s
    }
}

/// `<uN as FromStr>::from_str` for an unsigned type whose maximum is `max`:
/// an optional `+` followed by at least one ASCII digit, no other
/// character, and a value that fits.
pub open spec fn parse_uint(s: Seq<char>, max: int) -> Option<int> {
    let d = unsigned_digits(s);
    if d.len() > 0 && all_digits(d) && dec_value(d) <= max {
        Some(dec_value(d))
    } else {
        None
    }
}

/// `char::to_ascii_lowercase`.
pub open spec fn lower_char(c: char) -> char {
    if 'A' <= c && c <= 'Z' {
        ((c as u32) + 32) as char
    } else {
        c
    }
}

/// `str::to_ascii_lowercase`.
pub open spec fn lower(s: Seq<char>) -> Seq<char> {
    s.map_values(|c: char| lower_char(c))
}

/// `str::eq_ignore_ascii_case`.
pub open spec fn eq_ignore_case(a: Seq<char>, b: Seq<char>) -> bool {
    lower(a) == lower(b)
}

pub open spec fn starts_with(s: Seq<char>, p: Seq<char>) -> bool {
    p.len() <= s.len() && s.take(p.len() as int) == p
}

pub open spec fn ends_with(s: Seq<char>, p: Seq<char>) -> bool {
    p.len() <= s.len() && s.skip(s.len() - p.len()) == p
}

/// `needle` occurs in `s` starting at `i`.
pub open spec fn occurs_at(s: Seq<char>, needle: Seq<char>, i: int) -> bool {
    0 <= i && i + needle.len() <= s.len() && s.subrange(i, i + needle.len()) == needle
}

/// Index of the first occurrence of `needle` in `s` at or after `i`.
pub open spec fn find_from(s: Seq<char>, needle: Seq<char>, i: int) -> Option<int>
    decreases s.len() + 1 - i,
{
    if i < 0 || i + needle.len() > s.len() {
        None
    } else if occurs_at(s, needle, i) {
        Some(i)
    } else {
        find_from(s, needle, i + 1)
    }
}

/// `str::contains`.
pub open spec fn contains(s: Seq<char>, needle: Seq<char>) -> bool {
    find_from(s, needle, 0) is Some
}

/// `s.split(needle).nth(1)` for a non-empty needle: the text between the
/// first occurrence of `needle` and the next one (or the end).
pub open spec fn second_piece(s: Seq<char>, needle: Seq<char>) -> Option<Seq<char>> {
    match find_from(s, needle, 0) {
        None => None,
        Some(i) => {
            let start = i + needle.len();
            match find_from(s, needle, start) {
                None => Some(s.subrange(start, s.len() as int)),
                Some(j) => Some(s.subrange(start, j)),
            }
        },
    }
}

/// Index of the first `c` in `s`, if any.
pub open spec fn index_of(s: Seq<char>, c: char) -> Option<int> {
    find_from(s, seq![c], 0)
}

/// `str::split_once(c)`.
pub open spec fn split_once(s: Seq<char>, c: char) -> Option<(Seq<char>, Seq<char>)> {
    match index_of(s, c) {
        None => None,
        Some(i) => Some((s.take(i), s.skip(i + 1))),
    }
}

/// `s.split(c).next()`: everything before the first `c`.
pub open spec fn before_first(s: Seq<char>, c: char) -> Seq<char> {
    match index_of(s, c) {
        None => s,
        Some(i) => s.take(i),
    }
}

/// Number of leading non-whitespace characters.
pub open spec fn lead_word(s: Seq<char>) -> nat
    decreases s.len(),
{
    if s.len() > 0 && !is_ws(s[0]) {
        1 + lead_word(s.drop_first())
    } else {
        0
    }
}

/// `s.split_whitespace().next()`.
pub open spec fn first_word(s: Seq<char>) -> Option<Seq<char>> {
    let t = trim_start(s);
    if t.len() == 0 {
        None
    } else {
        Some(t.take(lead_word(t) as int))
    }
}

/// Decimal rendering of a natural number (no sign, no leading zeros).
pub open spec fn dec_string(n: nat) -> Seq<char>
    decreases n,
{
    if n < 10 {
        seq![digit_char(n)]
    } else {
        dec_string(n / 10).push(digit_char(n % 10))
    }
}

pub open spec fn digit_char(d: nat) -> char {
    if d == 0 { '0' }
    else if d == 1 { '1' }
    else if d == 2 { '2' }
    else if d == 3 { '3' }
    else if d == 4 { '4' }
    else if d == 5 { '5' }
    else if d == 6 { '6' }
    else if d == 7 { '7' }
    else if d == 8 { '8' }
    else { '9' }
}

/// `n` zero-padded on the left to at least `width` characters
/// (`format!("{n:0width$}")`).
pub open spec fn zero_pad(s: Seq<char>, width: nat) -> Seq<char> {
    if s.len() >= width {
        s
    } else {
        Seq::new((width - s.len()) as nat, |i: int| '0') + s
    }
}

// ---------------------------------------------------------------------------
// Lemmas
// ---------------------------------------------------------------------------

pub proof fn lemma_lead_ws(s: Seq<char>, n: int)
    requires
        0 <= n <= s.len(),
        forall|k: int| 0 <= k < n ==> is_ws(#[trigger] s[k]),
        n == s.len() || !is_ws(s[n]),
    ensures
        lead_ws(s) == n,
    decreases n,
{
    if n > 0 {
        let t = s.drop_first();
        assert forall|k: int| 0 <= k < n - 1 implies is_ws(#[trigger] t[k]) by {
            assert(t[k] == s[k + 1]);
        }
        if n - 1 < t.len() {
            assert(t[n - 1] == s[n]);
        }
        lemma_lead_ws(t, n - 1);
    }
}

pub proof fn lemma_trail_ws(s: Seq<char>, n: int)
    requires
        0 <= n <= s.len(),
        forall|k: int| s.len() - n <= k < s.len() ==> is_ws(#[trigger] s[k]),
        n == s.len() || !is_ws(s[s.len() - n - 1]),
    ensures
        trail_ws(s) == n,
    decreases n,
{
    if n > 0 {
        let t = s.drop_last();
        assert forall|k: int| t.len() - (n - 1) <= k < t.len() implies is_ws(#[trigger] t[k]) by {
            assert(t[k] == s[k]);
        }
        if n - 1 < t.len() {
            assert(t[t.len() - (n - 1) - 1] == s[s.len() - n - 1]);
        }
        lemma_trail_ws(t, n - 1);
    }
}

pub proof fn lemma_lead_word(s: Seq<char>, n: int)
    requires
        0 <= n <= s.len(),
        forall|k: int| 0 <= k < n ==> !is_ws(#[trigger] s[k]),
        n == s.len() || is_ws(s[n]),
    ensures
        lead_word(s) == n,
    decreases n,
{
    if n > 0 {
        let t = s.drop_first();
        assert forall|k: int| 0 <= k < n - 1 implies !is_ws(#[trigger] t[k]) by {
            assert(t[k] == s[k + 1]);
        }
        if n - 1 < t.len() {
            assert(t[n - 1] == s[n]);
        }
        lemma_lead_word(t, n - 1);
    }
}


/// Numbers from ten on have at least two digits; single digits have one.
pub proof fn lemma_dec_string_len(n: nat)
    ensures
        n < 10 ==> dec_string(n).len() == 1,
        n >= 10 ==> dec_string(n).len() == dec_string(n / 10).len() + 1 && dec_string(n).len() >= 2,
    decreases n,
{
    if n >= 10 {
        lemma_dec_string_digits(n / 10);
    }
}

/// More never has fewer digits.
pub proof fn lemma_dec_string_len_monotone(a: nat, b: nat)
    requires
        a <= b,
    ensures
        dec_string(a).len() <= dec_string(b).len(),
    decreases b,
{
    lemma_dec_string_len(a);
    lemma_dec_string_len(b);
    if a >= 10 {
        lemma_dec_string_len_monotone(a / 10, b / 10);
    }
}

proof fn lemma_digit_char_injective(a: nat, b: nat)
    requires
        a < 10,
        b < 10,
        digit_char(a) == digit_char(b),
    ensures
        a == b,
{
}

/// Distinct numbers have distinct decimal renderings.
pub proof fn lemma_dec_string_injective(a: nat, b: nat)
    requires
        dec_string(a) == dec_string(b),
    ensures
        a == b,
    decreases a,
{
    lemma_dec_string_len(a);
    lemma_dec_string_len(b);
    if a < 10 && b < 10 {
        assert(dec_string(a)[0] == digit_char(a));
        assert(dec_string(b)[0] == digit_char(b));
        lemma_digit_char_injective(a, b);
    } else if a >= 10 && b >= 10 {
        assert(dec_string(a).last() == digit_char(a % 10));
        assert(dec_string(b).last() == digit_char(b % 10));
        lemma_digit_char_injective(a % 10, b % 10);
        assert(dec_string(a).drop_last() =~= dec_string(a / 10));
        assert(dec_string(b).drop_last() =~= dec_string(b / 10));
        lemma_dec_string_injective(a / 10, b / 10);
    }
}

/// A positive number's rendering does not start with `0`.
pub proof fn lemma_dec_string_leading(n: nat)
    requires
        n >= 1,
    ensures
        dec_string(n)[0] != '0',
    decreases n,
{
    lemma_dec_string_len(n);
    if n >= 10 {
        lemma_dec_string_leading(n / 10);
        lemma_dec_string_len(n / 10);
        assert(dec_string(n)[0] == dec_string(n / 10)[0]);
    }
}

proof fn lemma_digit_round_trip(d: nat)
    requires
        d < 10,
    ensures
        digit_val(digit_char(d)) == d,
{
    assert('0' as int == 48);
    assert('1' as int == 49);
    assert('2' as int == 50);
    assert('3' as int == 51);
    assert('4' as int == 52);
    assert('5' as int == 53);
    assert('6' as int == 54);
    assert('7' as int == 55);
    assert('8' as int == 56);
    assert('9' as int == 57);
}

/// Reading a rendering back gives the number.
pub proof fn lemma_dec_value_of_dec_string(n: nat)
    ensures
        dec_value(dec_string(n)) == n,
    decreases n,
{
    if n < 10 {
        assert(dec_string(n).drop_last() =~= Seq::<char>::empty());
        lemma_digit_round_trip(n);
        assert(dec_string(n).last() == digit_char(n));
        assert(dec_value(dec_string(n)) == dec_value(Seq::<char>::empty()) * 10 + digit_val(
            digit_char(n),
        ));
    } else {
        lemma_dec_value_of_dec_string(n / 10);
        assert(dec_string(n).drop_last() =~= dec_string(n / 10));
        lemma_digit_round_trip(n % 10);
        assert(dec_string(n).last() == digit_char(n % 10));
        assert(dec_value(dec_string(n)) == dec_value(dec_string(n / 10)) * 10 + digit_val(
            digit_char(n % 10),
        ));
        assert((n / 10) * 10 + n % 10 == n);
    }
}

/// A string that starts and ends with non-whitespace is its own trim.
pub proof fn lemma_trim_unchanged(s: Seq<char>)
    requires
        s.len() > 0,
        !is_ws(s[0]),
        !is_ws(s.last()),
    ensures
        trim(s) == s,
{
    assert(lead_ws(s) == 0);
    assert(s.skip(0) =~= s);
    assert(trail_ws(s) == 0);
    assert(s.take(s.len() as int) =~= s);
}

/// The first occurrence of a character found by scanning from `i`.
pub proof fn lemma_find_char(s: Seq<char>, c: char, i: int, at: int)
    requires
        0 <= i <= at < s.len(),
        s[at] == c,
        forall|k: int| i <= k < at ==> s[k] != c,
    ensures
        find_from(s, seq![c], i) == Some(at),
    decreases at - i,
{
    if i < at {
        assert(!occurs_at(s, seq![c], i)) by {
            if occurs_at(s, seq![c], i) {
                assert(s.subrange(i, i + 1)[0] == s[i]);
            }
        }
        lemma_find_char(s, c, i + 1, at);
    } else {
        assert(s.subrange(at, at + 1) =~= seq![c]);
    }
}

/// Pieces joined with `sep` between them.
pub open spec fn join_with(ls: Seq<Seq<char>>, sep: char) -> Seq<char>
    decreases ls.len(),
{
    if ls.len() == 0 {
        Seq::<char>::empty()
    } else if ls.len() == 1 {
        ls[0]
    } else {
        join_with(ls.drop_last(), sep) + seq![sep] + ls.last()
    }
}

/// Extending the last piece extends the joined text.
pub proof fn lemma_join_extend_last(ls: Seq<Seq<char>>, sep: char, c: char)
    requires
        ls.len() >= 1,
    ensures
        join_with(ls.update(ls.len() - 1, ls.last().push(c)), sep) == join_with(ls, sep).push(c),
{
    let u = ls.update(ls.len() - 1, ls.last().push(c));
    if ls.len() == 1 {
        assert(u[0] == ls[0].push(c));
    } else {
        assert(u.drop_last() =~= ls.drop_last());
        assert(join_with(u, sep) =~= join_with(ls, sep).push(c));
    }
}

/// Starting a new, empty piece adds one separator.
pub proof fn lemma_join_new_piece(ls: Seq<Seq<char>>, sep: char)
    requires
        ls.len() >= 1,
    ensures
        join_with(ls.push(Seq::<char>::empty()), sep) == join_with(ls, sep).push(sep),
{
    let p = ls.push(Seq::<char>::empty());
    assert(p.drop_last() =~= ls);
    assert(join_with(p, sep) =~= join_with(ls, sep).push(sep));
}

/// Leading zeros do not change a decimal value.
pub proof fn lemma_dec_value_leading_zeros(k: nat, s: Seq<char>)
    ensures
        dec_value(Seq::new(k, |i: int| '0') + s) == dec_value(s),
    decreases s.len(),
{
    let z = Seq::new(k, |i: int| '0');
    if s.len() == 0 {
        assert(z + s =~= z);
        lemma_dec_value_zeros(k);
    } else {
        assert((z + s).drop_last() =~= z + s.drop_last());
        assert((z + s).last() == s.last());
        lemma_dec_value_leading_zeros(k, s.drop_last());
    }
}

proof fn lemma_dec_value_zeros(k: nat)
    ensures
        dec_value(Seq::new(k, |i: int| '0')) == 0,
    decreases k,
{
    if k > 0 {
        let z = Seq::new(k, |i: int| '0');
        assert(z.drop_last() =~= Seq::new((k - 1) as nat, |i: int| '0'));
        lemma_dec_value_zeros((k - 1) as nat);
        assert(digit_val(z.last()) == 0);
    }
}

/// A zero-padded rendering still reads as the number.
pub proof fn lemma_zero_pad_value(n: nat, w: nat)
    ensures
        dec_value(zero_pad(dec_string(n), w)) == n,
{
    lemma_dec_value_of_dec_string(n);
    let d = dec_string(n);
    if d.len() < w {
        lemma_dec_value_leading_zeros((w - d.len()) as nat, d);
    }
}

/// Decimal renderings consist of digits only.
pub proof fn lemma_dec_string_digits(n: nat)
    ensures
        dec_string(n).len() >= 1,
        forall|k: int| 0 <= k < dec_string(n).len() ==> is_digit(#[trigger] dec_string(n)[k]),
    decreases n,
{
    if n >= 10 {
        lemma_dec_string_digits(n / 10);
        let s = dec_string(n);
        assert forall|k: int| 0 <= k < s.len() implies is_digit(#[trigger] s[k]) by {
            if k < s.len() - 1 {
                assert(s[k] == dec_string(n / 10)[k]);
            }
        }
    }
}

/// A longer digit string never has a smaller value.
pub proof fn lemma_dec_value_monotone(s: Seq<char>, j: int, k: int)
    requires
        0 <= j <= k <= s.len(),
        all_digits(s),
    ensures
        dec_value(s.take(j)) <= dec_value(s.take(k)),
    decreases k - j,
{
    if j < k {
        lemma_dec_value_monotone(s, j, k - 1);
        let t = s.take(k);
        assert(t.drop_last() =~= s.take(k - 1));
        assert(is_digit(s[k - 1]));
        lemma_dec_value_nonneg(s.take(k - 1));
    }
}

pub proof fn lemma_dec_value_nonneg(s: Seq<char>)
    requires
        all_digits(s),
    ensures
        dec_value(s) >= 0,
    decreases s.len(),
{
    if s.len() > 0 {
        let t = s.drop_last();
        assert forall|i: int| 0 <= i < t.len() implies #[trigger] is_digit(t[i]) by {
            assert(t[i] == s[i]);
        }
        lemma_dec_value_nonneg(t);
        assert(is_digit(s[s.len() - 1]));
    }
}

/// Every element of a `split_on` piece is different from the separator.
pub proof fn lemma_split_on_len(s: Seq<char>, sep: char)
    ensures
        split_on(s, sep).len() >= 1,
    decreases s.len(),
{
    if s.len() > 0 {
        lemma_split_on_len(s.drop_last(), sep);
    }
}

/// Text without the separator is one piece.
pub proof fn lemma_split_on_no_sep(x: Seq<char>, sep: char)
    requires
        !x.contains(sep),
    ensures
        split_on(x, sep) == seq![x],
    decreases x.len(),
{
    if x.len() > 0 {
        assert(!x.drop_last().contains(sep)) by {
            if x.drop_last().contains(sep) {
                let k = choose|k: int| 0 <= k < x.drop_last().len() && x.drop_last()[k] == sep;
                assert(x[k] == sep);
            }
        }
        lemma_split_on_no_sep(x.drop_last(), sep);
        assert(x.last() != sep) by {
            assert(x[x.len() - 1] == x.last());
        }
        assert(x.drop_last().push(x.last()) =~= x);
        assert(split_on(x, sep) =~= seq![x]);
    } else {
        assert(x =~= Seq::<char>::empty());
    }
}

/// A separator and then a piece without one adds that piece at the end.
pub proof fn lemma_split_on_append_piece(a: Seq<char>, b: Seq<char>, sep: char)
    requires
        !b.contains(sep),
    ensures
        split_on(a + seq![sep] + b, sep) == split_on(a, sep).push(b),
    decreases b.len(),
{
    let t = a + seq![sep] + b;
    if b.len() == 0 {
        assert(t.drop_last() =~= a);
        assert(t.last() == sep);
        assert(b =~= Seq::<char>::empty());
    } else {
        let b0 = b.drop_last();
        assert(!b0.contains(sep)) by {
            if b0.contains(sep) {
                let k = choose|k: int| 0 <= k < b0.len() && b0[k] == sep;
                assert(b[k] == sep);
            }
        }
        lemma_split_on_append_piece(a, b0, sep);
        assert(t.drop_last() =~= a + seq![sep] + b0);
        assert(t.last() == b.last());
        assert(b.last() != sep) by {
            assert(b[b.len() - 1] == b.last());
        }
        assert(b0.push(b.last()) =~= b);
        assert(split_on(t, sep) =~= split_on(a, sep).push(b));
    }
}

/// Splitting `a`, a separator, then `b` gives the pieces of `a` followed by
/// the pieces of `b`.
pub proof fn lemma_split_on_concat(a: Seq<char>, b: Seq<char>, sep: char)
    ensures
        split_on(a + seq![sep] + b, sep) == split_on(a, sep) + split_on(b, sep),
    decreases b.len(),
{
    let t = a + seq![sep] + b;
    if b.len() == 0 {
        assert(t.drop_last() =~= a);
        assert(t.last() == sep);
        assert(split_on(b, sep) =~= seq![Seq::<char>::empty()]);
        assert(split_on(t, sep) =~= split_on(a, sep) + split_on(b, sep));
    } else {
        let b0 = b.drop_last();
        lemma_split_on_concat(a, b0, sep);
        lemma_split_on_len(b0, sep);
        assert(t.drop_last() =~= a + seq![sep] + b0);
        assert(t.last() == b.last());
        let x = split_on(a, sep);
        let q = split_on(b0, sep);
        if b.last() == sep {
            assert(split_on(t, sep) =~= x + q.push(Seq::<char>::empty()));
        } else {
            let p = x + q;
            assert(p.last() == q.last());
            assert(p.update(p.len() - 1, p.last().push(b.last())) =~= x + q.update(
                q.len() - 1,
                q.last().push(b.last()),
            ));
        }
    }
}

// ---------------------------------------------------------------------------
// Executable operations
// ---------------------------------------------------------------------------

pub fn is_ws_char(c: char) -> (b: bool)
    ensures
        b == is_ws(c),
{
    c == '\t' || c == '\n' || c == '\u{0B}' || c == '\u{0C}' || c == '\r' || c == ' ' || c
        == '\u{85}' || c == '\u{A0}' || c == '\u{1680}' || ('\u{2000}' <= c && c <= '\u{200A}')
        || c == '\u{2028}' || c == '\u{2029}' || c == '\u{202F}' || c == '\u{205F}' || c
        == '\u{3000}'
}

/// The characters of `s`, in order.
pub fn chars_of(s: &str) -> (res: Vec<char>)
    ensures
        res@ == s@,
{
    let mut out: Vec<char> = Vec::new();
    for c in it: s.chars()
        invariant
            out@ == it.seq().take(it.index() as int),
    {
        out.push(c);
    }
    out
}

/// A copy of `v[from..to]`.
pub fn sub_chars(v: &[char], from: usize, to: usize) -> (res: Vec<char>)
    requires
        from <= to <= v@.len(),
    ensures
        res@ == v@.subrange(from as int, to as int),
{
    let mut out: Vec<char> = Vec::new();
    let mut i = from;
    while i < to
        invariant
            from <= i <= to <= v@.len(),
            out@ == v@.subrange(from as int, i as int),
        decreases to - i,
    {
        out.push(v[i]);
        i += 1;
    }
    out
}

/// Bounds `(a, b)` of `trim(v)` inside `v`.
pub fn trim_bounds(v: &[char]) -> (res: (usize, usize))
    ensures
        res.0 <= res.1 <= v@.len(),
        v@.subrange(res.0 as int, res.1 as int) == trim(v@),
        res.0 == lead_ws(v@),
{
    let n = v.len();
    let mut a: usize = 0;
    while a < n && is_ws_char(v[a])
        invariant
            a <= n == v@.len(),
            forall|k: int| 0 <= k < a ==> is_ws(#[trigger] v@[k]),
        decreases n - a,
    {
        a += 1;
    }
    proof {
        lemma_lead_ws(v@, a as int);
    }
    let ghost t = v@.skip(a as int);
    let mut b: usize = n;
    while b > a && is_ws_char(v[b - 1])
        invariant
            a <= b <= n == v@.len(),
            t == v@.skip(a as int),
            forall|k: int| b <= k < n ==> is_ws(#[trigger] v@[k]),
        decreases b - a,
    {
        b -= 1;
    }
    proof {
        let m = (n - b) as int;
        assert forall|k: int| t.len() - m <= k < t.len() implies is_ws(#[trigger] t[k]) by {
            assert(t[k] == v@[k + a]);
        }
        if m < t.len() {
            assert(t[t.len() - m - 1] == v@[b - 1]);
        }
        lemma_trail_ws(t, m);
        assert(v@.subrange(a as int, b as int) =~= trim(v@));
    }
    (a, b)
}

/// `trim(v)` as a new vector.
pub fn trimmed(v: &[char]) -> (res: Vec<char>)
    ensures
        res@ == trim(v@),
{
    let (a, b) = trim_bounds(v);
    sub_chars(v, a, b)
}

/// Is `p` a prefix of `v`?
pub fn has_prefix(v: &[char], p: &[char]) -> (b: bool)
    ensures
        b == starts_with(v@, p@),
{
    if p.len() > v.len() {
        return false;
    }
    let mut i: usize = 0;
    while i < p.len()
        invariant
            i <= p@.len() <= v@.len(),
            forall|k: int| 0 <= k < i ==> v@[k] == p@[k],
        decreases p.len() - i,
    {
        if v[i] != p[i] {
            assert(v@.take(p@.len() as int)[i as int] != p@[i as int]);
            return false;
        }
        i += 1;
    }
    assert(v@.take(p@.len() as int) =~= p@);
    true
}

/// Is `p` a suffix of `v`?
pub fn has_suffix(v: &[char], p: &[char]) -> (b: bool)
    ensures
        b == ends_with(v@, p@),
{
    if p.len() > v.len() {
        return false;
    }
    let off = v.len() - p.len();
    let mut i: usize = 0;
    while i < p.len()
        invariant
            i <= p@.len() <= v@.len(),
            off + p@.len() == v@.len(),
            v@.len() <= usize::MAX,
            forall|k: int| 0 <= k < i ==> v@[off + k] == p@[k],
        decreases p.len() - i,
    {
        let idx = off + i;
        let x = v[idx];
        let y = p[i];
        if x != y {
            assert(v@.skip(off as int)[i as int] != p@[i as int]);
            return false;
        }
        i += 1;
    }
    assert(v@.skip(off as int) =~= p@);
    true
}

/// Does `needle` occur in `v` at position `i`?
pub fn occurs_at_exec(v: &[char], needle: &[char], i: usize) -> (b: bool)
    ensures
        b == occurs_at(v@, needle@, i as int),
{
    if i > v.len() || needle.len() > v.len() - i {
        return false;
    }
    let mut k: usize = 0;
    while k < needle.len()
        invariant
            k <= needle@.len(),
            i <= v@.len() <= usize::MAX,
            i + needle@.len() <= v@.len(),
            forall|j: int| 0 <= j < k ==> v@[i + j] == needle@[j],
        decreases needle.len() - k,
    {
        if v[i + k] != needle[k] {
            assert(v@.subrange(i as int, i + needle@.len())[k as int] != needle@[k as int]);
            return false;
        }
        k += 1;
    }
    assert(v@.subrange(i as int, i + needle@.len()) =~= needle@);
    true
}

/// First occurrence of `needle` in `v` at or after `from`.
pub fn find_exec(v: &[char], needle: &[char], from: usize) -> (res: Option<usize>)
    ensures
        res matches Some(i) ==> find_from(v@, needle@, from as int) == Some(i as int),
        res matches Some(i) ==> from <= i && i + needle@.len() <= v@.len() && occurs_at(
            v@,
            needle@,
            i as int,
        ),
        res is None ==> find_from(v@, needle@, from as int) is None,
{
    let mut i = from;
    loop
        invariant
            from <= i,
            find_from(v@, needle@, from as int) == find_from(v@, needle@, i as int),
        decreases v@.len() + 1 - i,
    {
        if i > v.len() || needle.len() > v.len() - i {
            return None;
        }
        if occurs_at_exec(v, needle, i) {
            return Some(i);
        }
        proof {
            if i == v.len() {
                assert(v@.subrange(i as int, i as int) =~= needle@);
            }
        }
        i += 1;
    }
}

/// First index of `c` in `v`.
pub fn index_of_exec(v: &[char], c: char) -> (res: Option<usize>)
    ensures
        res matches Some(i) ==> index_of(v@, c) == Some(i as int),
        res matches Some(i) ==> i < v@.len() && v@[i as int] == c,
        res is None ==> index_of(v@, c) is None,
{
    let needle = [c];
    assert(needle@ =~= seq![c]);
    let r = find_exec(v, &needle, 0);
    if let Some(i) = r {
        assert(v@.subrange(i as int, i + 1)[0] == v@[i as int]);
    }
    r
}

pub proof fn lemma_find_from_bounds(s: Seq<char>, needle: Seq<char>, i: int)
    ensures
        find_from(s, needle, i) matches Some(j) ==> i <= j && j + needle.len() <= s.len()
            && occurs_at(s, needle, j),
    decreases s.len() + 1 - i,
{
    if !(i < 0 || i + needle.len() > s.len()) && !occurs_at(s, needle, i) {
        lemma_find_from_bounds(s, needle, i + 1);
    }
}

/// `parse_uint(v, max)` computed, for `max` up to `u64::MAX`.
pub fn parse_uint_exec(v: &[char], max: u64) -> (res: Option<u64>)
    ensures
        res matches Some(n) ==> parse_uint(v@, max as int) == Some(n as int),
        res is None ==> parse_uint(v@, max as int) is None,
{
    let start: usize = if v.len() > 0 && v[0] == '+' { 1 } else { 0 };
    let ghost d = unsigned_digits(v@);
    assert(d =~= v@.skip(start as int));
    if start >= v.len() {
        assert(d.len() == 0);
        return None;
    }
    let mut val: u64 = 0;
    let mut i = start;
    while i < v.len()
        invariant
            start <= i <= v@.len(),
            start < v@.len(),
            d == v@.skip(start as int),
            d == unsigned_digits(v@),
            forall|k: int| 0 <= k < i - start ==> #[trigger] is_digit(d[k]),
            val as int == dec_value(d.take(i - start)),
            val <= max,
        decreases v.len() - i,
    {
        let c = v[i];
        if !('0' <= c && c <= '9') {
            assert(d[i - start] == c);
            assert(!is_digit(d[i - start]));
            return None;
        }
        let dig = (c as u32 - '0' as u32) as u64;
        assert(d[i - start] == c);
        assert(d.take(i - start + 1).drop_last() =~= d.take(i - start));
        assert(d.take(i - start + 1).last() == c);
        assert(digit_val(c) == dig as int);
        assert(dec_value(d.take(i - start + 1)) == val * 10 + dig);
        if (val as u128) * 10 + (dig as u128) > (max as u128) {
            proof {
                if all_digits(d) {
                    lemma_dec_value_monotone(d, i - start + 1, d.len() as int);
                    assert(d.take(d.len() as int) =~= d);
                }
            }
            return None;
        }
        val = val * 10 + dig;
        i += 1;
    }
    assert(d.take(d.len() as int) =~= d);
    Some(val)
}

/// ASCII lower-case of one character.
pub fn lower_char_exec(c: char) -> (r: char)
    ensures
        r == lower_char(c),
{
    if 'A' <= c && c <= 'Z' {
        let u = c as u32 + 32;
        proof {
            assert(('a' as u32) <= u <= ('z' as u32));
        }
        char_from_ascii(u as u8)
    } else {
        c
    }
}

/// The character with a given ASCII code.
fn char_from_ascii(b: u8) -> (c: char)
    requires
        b < 128,
    ensures
        c as u32 == b as u32,
{
    b as char
}

/// `str::to_ascii_lowercase` on characters.
pub fn lower_chars(v: &[char]) -> (res: Vec<char>)
    ensures
        res@ == lower(v@),
{
    let mut out: Vec<char> = Vec::new();
    let mut i: usize = 0;
    while i < v.len()
        invariant
            i <= v@.len(),
            out@ == lower(v@.take(i as int)),
        decreases v.len() - i,
    {
        let c = lower_char_exec(v[i]);
        assert(lower(v@.take(i + 1)) =~= lower(v@.take(i as int)).push(lower_char(v@[i as int])));
        out.push(c);
        i += 1;
    }
    assert(v@.take(v@.len() as int) =~= v@);
    out
}

/// `str::eq_ignore_ascii_case` on characters.
pub fn eq_ignore_case_exec(a: &[char], b: &[char]) -> (r: bool)
    ensures
        r == eq_ignore_case(a@, b@),
{
    if a.len() != b.len() {
        assert(lower(a@).len() != lower(b@).len());
        return false;
    }
    let mut i: usize = 0;
    while i < a.len()
        invariant
            i <= a@.len() == b@.len(),
            forall|k: int| 0 <= k < i ==> lower_char(a@[k]) == lower_char(b@[k]),
        decreases a.len() - i,
    {
        if lower_char_exec(a[i]) != lower_char_exec(b[i]) {
            assert(lower(a@)[i as int] != lower(b@)[i as int]);
            return false;
        }
        i += 1;
    }
    assert(lower(a@) =~= lower(b@));
    true
}

/// First whitespace-delimited word of `v`, as bounds into `v`.
pub fn first_word_bounds(v: &[char]) -> (res: Option<(usize, usize)>)
    ensures
        res matches Some((a, b)) ==> a < b <= v@.len() && first_word(v@) == Some(
            v@.subrange(a as int, b as int),
        ),
        res is None ==> first_word(v@) is None,
{
    let n = v.len();
    let mut a: usize = 0;
    while a < n && is_ws_char(v[a])
        invariant
            a <= n == v@.len(),
            forall|k: int| 0 <= k < a ==> is_ws(#[trigger] v@[k]),
        decreases n - a,
    {
        a += 1;
    }
    proof {
        lemma_lead_ws(v@, a as int);
    }
    if a == n {
        return None;
    }
    let ghost t = v@.skip(a as int);
    let mut b = a;
    while b < n && !is_ws_char(v[b])
        invariant
            a <= b <= n == v@.len(),
            forall|k: int| a <= k < b ==> !is_ws(#[trigger] v@[k]),
        decreases n - b,
    {
        b += 1;
    }
    proof {
        assert forall|k: int| 0 <= k < b - a implies !is_ws(#[trigger] t[k]) by {
            assert(t[k] == v@[k + a]);
        }
        if b < n {
            assert(t[b - a] == v@[b as int]);
        }
        lemma_lead_word(t, b - a);
        assert(t.take(b - a) =~= v@.subrange(a as int, b as int));
        assert(!is_ws(v@[a as int]));
    }
    Some((a, b))
}

/// Decimal digits of `n`.
pub fn dec_chars(n: u64) -> (res: Vec<char>)
    ensures
        res@ == dec_string(n as nat),
    decreases n,
{
    if n < 10 {
        let mut v: Vec<char> = Vec::new();
        v.push(digit_char_exec(n));
        v
    } else {
        let mut v = dec_chars(n / 10);
        v.push(digit_char_exec(n % 10));
        v
    }
}

pub fn digit_char_exec(d: u64) -> (c: char)
    requires
        d < 10,
    ensures
        c == digit_char(d as nat),
{
    if d == 0 { '0' }
    else if d == 1 { '1' }
    else if d == 2 { '2' }
    else if d == 3 { '3' }
    else if d == 4 { '4' }
    else if d == 5 { '5' }
    else if d == 6 { '6' }
    else if d == 7 { '7' }
    else if d == 8 { '8' }
    else { '9' }
}

/// Append the characters of `b` to `a`.
pub fn push_all(a: &mut Vec<char>, b: &[char])
    ensures
        final(a)@ == old(a)@ + b@,
{
    let mut i: usize = 0;
    while i < b.len()
        invariant
            i <= b@.len(),
            a@ == old(a)@ + b@.take(i as int),
        decreases b.len() - i,
    {
        a.push(b[i]);
        assert(b@.take(i + 1) =~= b@.take(i as int).push(b@[i as int]));
        i += 1;
    }
    assert(b@.take(b@.len() as int) =~= b@);
}

/// Append the characters of a string slice to `a`.
pub fn push_str(a: &mut Vec<char>, s: &str)
    ensures
        final(a)@ == old(a)@ + s@,
{
    let cs = chars_of(s);
    push_all(a, &cs);
}

/// The pieces of `v` between occurrences of `sep` (`str::split`).
pub fn split_chars(v: &[char], sep: char) -> (res: Vec<Vec<char>>)
    ensures
        res@.len() == split_on(v@, sep).len(),
        forall|k: int| 0 <= k < res@.len() ==> #[trigger] res@[k]@ == split_on(v@, sep)[k],
{
    let mut done: Vec<Vec<char>> = Vec::new();
    let mut cur: Vec<char> = Vec::new();
    let mut i: usize = 0;
    assert(v@.take(0) =~= Seq::<char>::empty());
    while i < v.len()
        invariant
            i <= v@.len(),
            done@.len() + 1 == split_on(v@.take(i as int), sep).len(),
            forall|k: int| 0 <= k < done@.len() ==> #[trigger] done@[k]@ == split_on(v@.take(i as int), sep)[k],
            cur@ == split_on(v@.take(i as int), sep).last(),
        decreases v.len() - i,
    {
        let c = v[i];
        let ghost pre = v@.take(i as int);
        assert(v@.take(i + 1).drop_last() =~= pre);
        assert(v@.take(i + 1).last() == c);
        proof {
            lemma_split_on_len(pre, sep);
        }
        if c == sep {
            let finished = cur;
            done.push(finished);
            cur = Vec::new();
        } else {
            cur.push(c);
        }
        i += 1;
    }
    assert(v@.take(v@.len() as int) =~= v@);
    done.push(cur);
    done
}

/// Views of a sequence of strings.
pub open spec fn views(v: Seq<String>) -> Seq<Seq<char>> {
    v.map_values(|x: String| x@)
}

/// Views of a sequence of string slices.
pub open spec fn str_views(v: Seq<&str>) -> Seq<Seq<char>> {
    v.map_values(|x: &str| x@)
}

/// Character-wise equality.
pub fn chars_eq(a: &[char], b: &[char]) -> (r: bool)
    ensures
        r == (a@ == b@),
{
    if a.len() != b.len() {
        return false;
    }
    let mut i: usize = 0;
    while i < a.len()
        invariant
            i <= a@.len() == b@.len(),
            forall|k: int| 0 <= k < i ==> a@[k] == b@[k],
        decreases a.len() - i,
    {
        if a[i] != b[i] {
            return false;
        }
        i += 1;
    }
    assert(a@ =~= b@);
    true
}

/// Equality of two string slices.
pub fn str_eq(a: &str, b: &str) -> (r: bool)
    ensures
        r == (a@ == b@),
{
    let x = chars_of(a);
    let y = chars_of(b);
    chars_eq(&x, &y)
}

/// `s` left-padded with zeros to at least `width` characters.
pub fn zero_pad_chars(s: &[char], width: usize) -> (r: Vec<char>)
    ensures
        r@ == zero_pad(s@, width as nat),
{
    let mut out: Vec<char> = Vec::new();
    if s.len() < width {
        let n = width - s.len();
        let mut i: usize = 0;
        while i < n
            invariant
                i <= n,
                out@ == Seq::new(i as nat, |j: int| '0'),
            decreases n - i,
        {
            out.push('0');
            assert(out@ =~= Seq::new((i + 1) as nat, |j: int| '0'));
            i += 1;
        }
    }
    push_all(&mut out, s);
    assert(s@.len() >= width ==> out@ =~= s@);
    out
}

/// A new `String` equal to `s`.
pub fn owned(s: &str) -> (r: String)
    ensures
        r@ == s@,
{
    s.to_owned()
}

/// Build a `String` holding exactly the given characters.
#[verifier::external_body]
pub(crate) fn string_of(cs: Vec<char>) -> (s: String)
    ensures
        s@ == cs@,
{
    String::from_iter(cs)
}

} // verus!
