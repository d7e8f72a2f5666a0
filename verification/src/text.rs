//! Verified text helpers.
//!
//! Everything the engine does with text — printing integers, parsing
//! integers, comparing, prefix and suffix tests, splitting and joining — is
//! implemented and specified here over sequences of characters.  Only the
//! Unicode case mappings are delegated to the standard library, behind
//! trusted wrappers whose results are named.

use vstd::prelude::*;
use core::cmp::Ordering;

verus! {

// ---------------------------------------------------------------------------
// decimal digits

/// Whether a character is a decimal digit.
pub open spec fn is_dec_digit(c: char) -> bool {
    48 <= c as int && c as int <= 57
}

/// The numeric value of a decimal digit.
pub open spec fn digit_val(c: char) -> int {
    c as int - 48
}

/// The decimal digit character for a value below ten.
pub open spec fn digit_char(d: int) -> char {
    ((48 + d) as u8) as char
}

/// Whether a text consists of decimal digits only.
pub open spec fn all_digits(s: Seq<char>) -> bool {
    forall|i: int| 0 <= i < s.len() ==> is_dec_digit(#[trigger] s[i])
}

/// The value of a digit string, most significant digit first.
pub open spec fn dec_val(s: Seq<char>) -> int
    decreases s.len(),
{
    if s.len() == 0 {
        0
    } else {
        dec_val(s.drop_last()) * 10 + digit_val(s.last())
    }
}

/// The decimal text of a natural number.
pub open spec fn dec_u64(n: nat) -> Seq<char>
    decreases n,
{
    if n < 10 {
        seq![digit_char(n as int)]
    } else {
        dec_u64(n / 10) + seq![digit_char((n % 10) as int)]
    }
}

/// The decimal text of a signed integer, with a leading minus where negative.
pub open spec fn i64_text(i: i64) -> Seq<char> {
    if i < 0 {
        seq!['-'] + dec_u64((-(i as int)) as nat)
    } else {
        dec_u64(i as nat)
    }
}

/// The text of a boolean.
pub open spec fn bool_text(b: bool) -> Seq<char> {
    if b {
        seq!['t', 'r', 'u', 'e']
    } else {
        seq!['f', 'a', 'l', 's', 'e']
    }
}

/// Whether a text starts with a minus sign.
pub open spec fn parse_neg(s: Seq<char>) -> bool {
    s.len() > 0 && s[0] == '-'
}

/// The digit part of a signed decimal text: everything after an optional
/// leading sign.
pub open spec fn parse_digits(s: Seq<char>) -> Seq<char> {
    if s.len() > 0 && (s[0] == '-' || s[0] == '+') {
        s.drop_first()
    } else {
        s
    }
}

/// The integer a text denotes under the standard library's i64 parser: an
/// optional sign, then one or more decimal digits, rejected when the value
/// leaves the i64 range.
pub open spec fn parse_i64(s: Seq<char>) -> Option<i64> {
    if parse_digits(s).len() == 0 || !all_digits(parse_digits(s)) {
        None
    } else if parse_neg(s) {
        if dec_val(parse_digits(s)) <= 0x8000_0000_0000_0000 {
            Some((-dec_val(parse_digits(s))) as i64)
        } else {
            None
        }
    } else {
        if dec_val(parse_digits(s)) < 0x8000_0000_0000_0000 {
            Some(dec_val(parse_digits(s)) as i64)
        } else {
            None
        }
    }
}

// ---------------------------------------------------------------------------
// ordering, prefix, suffix

/// Lexicographic order on texts, by character code.
pub open spec fn lex_cmp(a: Seq<char>, b: Seq<char>) -> Ordering
    decreases a.len(),
{
    if a.len() == 0 && b.len() == 0 {
        Ordering::Equal
    } else if a.len() == 0 {
        Ordering::Less
    } else if b.len() == 0 {
        Ordering::Greater
    } else if (a[0] as int) < (b[0] as int) {
        Ordering::Less
    } else if (a[0] as int) > (b[0] as int) {
        Ordering::Greater
    } else {
        lex_cmp(a.drop_first(), b.drop_first())
    }
}

// ---------------------------------------------------------------------------
// split and join

/// One split step: scan for the next separator occurrence, accumulating the
/// current part.
pub open spec fn split_go(s: Seq<char>, sep: Seq<char>, cur: Seq<char>) -> Seq<Seq<char>>
    recommends
        sep.len() > 0,
    decreases s.len(),
{
    if s.len() >= sep.len() && sep.len() > 0 && s.subrange(0, sep.len() as int) == sep {
        seq![cur] + split_go(s.skip(sep.len() as int), sep, Seq::empty())
    } else if s.len() == 0 {
        seq![cur]
    } else {
        split_go(s.drop_first(), sep, cur.push(s[0]))
    }
}

/// The parts a text splits into on a separator, with the standard library's
/// semantics: non-overlapping leftmost occurrences; an empty separator cuts
/// before every character and after the last one.
pub open spec fn split_of(s: Seq<char>, sep: Seq<char>) -> Seq<Seq<char>> {
    if sep.len() == 0 {
        seq![Seq::<char>::empty()] + Seq::new(s.len(), |i: int| seq![s[i]]) + seq![
            Seq::<char>::empty(),
        ]
    } else {
        split_go(s, sep, Seq::empty())
    }
}

/// The concatenation of parts with a separator between adjacent parts.
pub open spec fn join_of(parts: Seq<Seq<char>>, sep: Seq<char>) -> Seq<char>
    decreases parts.len(),
{
    if parts.len() == 0 {
        Seq::empty()
    } else if parts.len() == 1 {
        parts[0]
    } else {
        parts[0] + sep + join_of(parts.drop_first(), sep)
    }
}

/// Joining one more part appends a separator and the part (or is the part
/// itself when there was nothing yet).
pub proof fn lemma_join_push(q: Seq<Seq<char>>, x: Seq<char>, sep: Seq<char>)
    ensures
        join_of(q.push(x), sep) == if q.len() == 0 {
            x
        } else {
            join_of(q, sep) + sep + x
        },
    decreases q.len(),
{
    if q.len() == 0 {
        assert(q.push(x).len() == 1);
        assert(q.push(x)[0] == x);
    } else {
        assert(q.push(x).drop_first() =~= q.drop_first().push(x));
        lemma_join_push(q.drop_first(), x, sep);
        assert(q.push(x)[0] == q[0]);
        if q.len() == 1 {
            assert(join_of(q, sep) == q[0]);
        } else {
            assert(join_of(q.push(x), sep) == q[0] + sep + (join_of(q.drop_first(), sep) + sep
                + x));
            assert(q[0] + sep + (join_of(q.drop_first(), sep) + sep + x) =~= (q[0] + sep
                + join_of(q.drop_first(), sep)) + sep + x);
        }
    }
}

// ---------------------------------------------------------------------------
// executable: digits out

/// The one-character text of a decimal digit.
fn digit_str(d: u64) -> (r: &'static str)
    requires
        d < 10,
    ensures
        r@ == seq![digit_char(d as int)],
{
    proof {
        reveal_strlit("0");
        reveal_strlit("1");
        reveal_strlit("2");
        reveal_strlit("3");
        reveal_strlit("4");
        reveal_strlit("5");
        reveal_strlit("6");
        reveal_strlit("7");
        reveal_strlit("8");
        reveal_strlit("9");
    }
    let r = match d {
        0 => "0",
        1 => "1",
        2 => "2",
        3 => "3",
        4 => "4",
        5 => "5",
        6 => "6",
        7 => "7",
        8 => "8",
        _ => "9",
    };
    proof {
        assert(r@ =~= seq![digit_char(d as int)]);
    }
    r
}

/// Appends the decimal text of a natural number.
fn push_dec_u64(n: u64, out: &mut String)
    ensures
        final(out)@ == old(out)@ + dec_u64(n as nat),
    decreases n,
{
    if n < 10 {
        out.append(digit_str(n));
        assert(final(out)@ =~= old(out)@ + dec_u64(n as nat));
    } else {
        push_dec_u64(n / 10, out);
        out.append(digit_str(n % 10));
        assert(final(out)@ =~= old(out)@ + dec_u64(n as nat));
    }
}

/// The decimal text of a signed integer.
pub fn i64_to_string(i: i64) -> (r: String)
    ensures
        r@ == i64_text(i),
{
    let mut s = String::new();
    if i < 0 {
        proof {
            reveal_strlit("-");
        }
        s.append("-");
        assert(s@ =~= seq!['-']);
        let m: u64 = if i == i64::MIN {
            9223372036854775808u64
        } else {
            (-i) as u64
        };
        assert(m as nat == (-(i as int)) as nat);
        push_dec_u64(m, &mut s);
        assert(s@ =~= i64_text(i));
    } else {
        push_dec_u64(i as u64, &mut s);
        assert(s@ =~= i64_text(i));
    }
    s
}

// ---------------------------------------------------------------------------
// executable: digits in

proof fn lemma_dec_val_nonneg(s: Seq<char>)
    requires
        all_digits(s),
    ensures
        dec_val(s) >= 0,
    decreases s.len(),
{
    if s.len() > 0 {
        assert(all_digits(s.drop_last()));
        lemma_dec_val_nonneg(s.drop_last());
    }
}

proof fn lemma_dec_val_prefix(t: Seq<char>, u: Seq<char>)
    requires
        all_digits(u),
        t.is_prefix_of(u),
    ensures
        dec_val(u) >= dec_val(t),
    decreases u.len(),
{
    if t.len() == u.len() {
        assert(t =~= u);
    } else {
        assert(t.is_prefix_of(u.drop_last()));
        assert(all_digits(u.drop_last()));
        lemma_dec_val_prefix(t, u.drop_last());
        lemma_dec_val_nonneg(u.drop_last());
    }
}

/// Parses a text as a signed 64-bit integer, exactly as the standard
/// library's parser would.
pub fn parse_i64_str(s: &str) -> (r: Option<i64>)
    ensures
        r == parse_i64(s@),
{
    let n = s.unicode_len();
    let mut i: usize = 0;
    let mut neg = false;
    if n > 0 {
        let c0 = s.get_char(0);
        if c0 == '-' || c0 == '+' {
            neg = c0 == '-';
            i = 1;
        }
    }
    let ghost ds: Seq<char> = parse_digits(s@);
    assert(ds =~= s@.subrange(i as int, n as int));
    assert(neg == parse_neg(s@));
    if i >= n {
        return None;
    }
    let limit: u64 = if neg {
        9223372036854775808u64
    } else {
        9223372036854775807u64
    };
    let mut acc: u64 = 0;
    let mut j = i;
    while j < n
        invariant
            i <= j <= n,
            n == s@.len(),
            i <= 1,
            ds == parse_digits(s@),
            neg == parse_neg(s@),
            ds =~= s@.subrange(i as int, n as int),
            ds.len() > 0,
            all_digits(s@.subrange(i as int, j as int)),
            acc as int == dec_val(s@.subrange(i as int, j as int)),
            acc <= limit,
            limit == 9223372036854775807u64 + (if neg {
                1int
            } else {
                0int
            }),
        decreases n - j,
    {
        let c = s.get_char(j);
        let cv = c as u32;
        if cv < 48 || cv > 57 {
            proof {
                assert(!is_dec_digit(s@[j as int]));
                assert(ds[j - i] == s@[j as int]);
                assert(!all_digits(ds));
            }
            return None;
        }
        let d = (cv - 48) as u64;
        proof {
            assert(s@.subrange(i as int, j + 1).drop_last() =~= s@.subrange(i as int, j as int));
            assert(s@.subrange(i as int, j + 1).last() == s@[j as int]);
        }
        if acc > limit / 10 || (acc == limit / 10 && d > limit % 10) {
            proof {
                let part = s@.subrange(i as int, j + 1);
                assert(dec_val(part) == acc * 10 + d);
                assert(dec_val(part) > limit);
                assert(part.is_prefix_of(ds)) by {
                    assert(forall|k: int|
                        0 <= k < part.len() ==> part[k] == #[trigger] ds[k]);
                    assert(part =~= ds.subrange(0, part.len() as int));
                }
                if all_digits(ds) {
                    lemma_dec_val_prefix(part, ds);
                }
            }
            return None;
        }
        acc = acc * 10 + d;
        j = j + 1;
    }
    assert(s@.subrange(i as int, j as int) =~= ds);
    if neg {
        if acc == 9223372036854775808u64 {
            Some(i64::MIN)
        } else {
            Some(-(acc as i64))
        }
    } else {
        Some(acc as i64)
    }
}

// ---------------------------------------------------------------------------
// executable: comparison, prefix, suffix

/// Whether two texts are equal, character by character.
pub fn str_eq_str(a: &str, b: &str) -> (r: bool)
    ensures
        r == (a@ == b@),
{
    let n = a.unicode_len();
    if n != b.unicode_len() {
        assert(a@ != b@) by {
            assert(a@.len() != b@.len());
        }
        return false;
    }
    let mut i: usize = 0;
    while i < n
        invariant
            0 <= i <= n,
            n == a@.len(),
            n == b@.len(),
            forall|k: int| 0 <= k < i ==> a@[k] == b@[k],
        decreases n - i,
    {
        if a.get_char(i) != b.get_char(i) {
            return false;
        }
        i = i + 1;
    }
    proof {
        assert(a@ =~= b@);
    }
    true
}

/// The lexicographic order of two texts.
pub fn str_lex_cmp(a: &str, b: &str) -> (r: Ordering)
    ensures
        r == lex_cmp(a@, b@),
{
    let an = a.unicode_len();
    let bn = b.unicode_len();
    let mut i: usize = 0;
    proof {
        assert(a@.subrange(0, an as int) =~= a@);
        assert(b@.subrange(0, bn as int) =~= b@);
    }
    while i < an && i < bn
        invariant
            0 <= i <= an,
            0 <= i <= bn,
            an == a@.len(),
            bn == b@.len(),
            lex_cmp(a@, b@) == lex_cmp(
                a@.subrange(i as int, an as int),
                b@.subrange(i as int, bn as int),
            ),
        decreases an - i,
    {
        let ca = a.get_char(i);
        let cb = b.get_char(i);
        if (ca as u32) < (cb as u32) {
            return Ordering::Less;
        }
        if (ca as u32) > (cb as u32) {
            return Ordering::Greater;
        }
        proof {
            let at = a@.subrange(i as int, an as int);
            let bt = b@.subrange(i as int, bn as int);
            assert(at.drop_first() =~= a@.subrange(i + 1, an as int));
            assert(bt.drop_first() =~= b@.subrange(i + 1, bn as int));
        }
        i = i + 1;
    }
    if i < bn {
        Ordering::Less
    } else if i < an {
        Ordering::Greater
    } else {
        Ordering::Equal
    }
}

/// Whether the text `p` occurs in `s` starting at `pos`.
fn str_match_at(s: &str, p: &str, pos: usize) -> (r: bool)
    requires
        pos + p@.len() <= s@.len(),
    ensures
        r == (s@.subrange(pos as int, pos + p@.len()) =~= p@),
{
    let n = s.unicode_len();
    let m = p.unicode_len();
    let mut j: usize = 0;
    while j < m
        invariant
            0 <= j <= m,
            m == p@.len(),
            n == s@.len(),
            pos + m <= n,
            forall|k: int| 0 <= k < j ==> s@[pos + k] == p@[k],
        decreases m - j,
    {
        if s.get_char(pos + j) != p.get_char(j) {
            assert(s@.subrange(pos as int, pos + p@.len())[j as int] != p@[j as int]);
            return false;
        }
        j = j + 1;
    }
    proof {
        assert(s@.subrange(pos as int, pos + p@.len()) =~= p@);
    }
    true
}

/// Whether `p` is a prefix of `s`.
pub fn str_starts_with(s: &str, p: &str) -> (r: bool)
    ensures
        r == p@.is_prefix_of(s@),
{
    let m = p.unicode_len();
    if m > s.unicode_len() {
        return false;
    }
    let r = str_match_at(s, p, 0);
    proof {
        assert(s@.subrange(0, p@.len() as int) == s@.take(p@.len() as int));
    }
    r
}

/// Whether `p` is a suffix of `s`.
pub fn str_ends_with(s: &str, p: &str) -> (r: bool)
    ensures
        r == p@.is_suffix_of(s@),
{
    let m = p.unicode_len();
    let n = s.unicode_len();
    if m > n {
        return false;
    }
    let r = str_match_at(s, p, n - m);
    proof {
        assert(s@.subrange(n - m, n as int) == s@.skip(n - m));
    }
    r
}

// ---------------------------------------------------------------------------
// executable: split

/// The view of a vector of strings, as a sequence of texts.
pub open spec fn texts_view(v: Seq<String>) -> Seq<Seq<char>> {
    v.map_values(|t: String| t@)
}

/// Splits a text on a separator, with the standard library's semantics.
pub fn split_string(s: &str, sep: &str) -> (r: Vec<String>)
    ensures
        texts_view(r@) == split_of(s@, sep@),
{
    let n = s.unicode_len();
    let m = sep.unicode_len();
    let mut parts: Vec<String> = Vec::new();
    if m == 0 {
        parts.push(String::new());
        let mut i: usize = 0;
        while i < n
            invariant
                0 <= i <= n,
                n == s@.len(),
                parts@.len() == i + 1,
                texts_view(parts@)[0] =~= Seq::<char>::empty(),
                forall|k: int| 0 <= k < i ==> texts_view(parts@)[k + 1] =~= seq![s@[k]],
            decreases n - i,
        {
            parts.push(s.substring_char(i, i + 1).to_owned());
            assert(s@.subrange(i as int, i + 1) =~= seq![s@[i as int]]);
            i = i + 1;
        }
        parts.push(String::new());
        proof {
            assert(texts_view(parts@) =~= split_of(s@, sep@));
        }
        return parts;
    }
    let mut start: usize = 0;
    let mut pos: usize = 0;
    proof {
        assert(s@.skip(0) =~= s@);
        assert(s@.subrange(0, 0) =~= Seq::<char>::empty());
        assert(texts_view(parts@) =~= Seq::<Seq<char>>::empty());
        assert(split_of(s@, sep@) =~= texts_view(parts@) + split_go(
            s@.skip(0),
            sep@,
            s@.subrange(0, 0),
        ));
    }
    loop
        invariant
            0 <= start <= pos <= n,
            n == s@.len(),
            m == sep@.len(),
            m > 0,
            split_of(s@, sep@) =~= texts_view(parts@) + split_go(
                s@.skip(pos as int),
                sep@,
                s@.subrange(start as int, pos as int),
            ),
        decreases n - pos,
    {
        if m <= n && pos <= n - m && str_match_at(s, sep, pos) {
            parts.push(s.substring_char(start, pos).to_owned());
            proof {
                let rest = s@.skip(pos as int);
                assert(rest.subrange(0, m as int) =~= s@.subrange(pos as int, pos + m as int));
                assert(rest.skip(m as int) =~= s@.skip(pos + m as int));
                assert(split_go(rest, sep@, s@.subrange(start as int, pos as int)) == seq![
                    s@.subrange(start as int, pos as int),
                ] + split_go(s@.skip(pos + m as int), sep@, Seq::empty()));
                assert(s@.subrange(pos + m as int, pos + m as int) =~= Seq::<char>::empty());
                assert(texts_view(parts@) =~= texts_view(parts@.drop_last()) + seq![
                    s@.subrange(start as int, pos as int),
                ]);
            }
            pos = pos + m;
            start = pos;
        } else if pos < n {
            proof {
                let rest = s@.skip(pos as int);
                if pos + m <= n {
                    assert(rest.subrange(0, m as int) =~= s@.subrange(pos as int, pos + m as int));
                }
                assert(rest.len() > 0);
                assert(!(rest.len() >= m && rest.subrange(0, m as int) == sep@)) by {
                    if rest.len() >= m && rest.subrange(0, m as int) == sep@ {
                        assert(s@.subrange(pos as int, pos + m as int) =~= sep@);
                    }
                }
                assert(rest.drop_first() =~= s@.skip(pos + 1));
                assert(s@.subrange(start as int, pos as int).push(s@[pos as int]) =~= s@.subrange(
                    start as int,
                    pos + 1,
                ));
                assert(rest[0] == s@[pos as int]);
            }
            pos = pos + 1;
        } else {
            proof {
                let rest = s@.skip(pos as int);
                assert(rest.len() == 0);
                assert(split_go(rest, sep@, s@.subrange(start as int, pos as int)) == seq![
                    s@.subrange(start as int, pos as int),
                ]);
            }
            parts.push(s.substring_char(start, n).to_owned());
            proof {
                assert(texts_view(parts@) =~= texts_view(parts@.drop_last()) + seq![
                    s@.subrange(start as int, n as int),
                ]);
                assert(texts_view(parts@) =~= split_of(s@, sep@));
            }
            return parts;
        }
    }
}

// ---------------------------------------------------------------------------
// trusted: Unicode case mapping

/// The lower-case form of a text under the standard library's case mapping.
pub uninterp spec fn lower_of(s: Seq<char>) -> Seq<char>;

/// The upper-case form of a text under the standard library's case mapping.
pub uninterp spec fn upper_of(s: Seq<char>) -> Seq<char>;

/// Relies on str::to_lowercase: the result depends on the characters alone.
#[verifier::external_body]
pub(crate) fn str_lower(s: &str) -> (r: String)
    ensures
        r@ == lower_of(s@),
{
    s.to_lowercase()
}

/// Relies on str::to_uppercase: the result depends on the characters alone.
#[verifier::external_body]
pub(crate) fn str_upper(s: &str) -> (r: String)
    ensures
        r@ == upper_of(s@),
{
    s.to_uppercase()
}

} // verus!
