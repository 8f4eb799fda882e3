//! Reading the pieces of a document back: fixed texts and integers.

use vstd::prelude::*;
use vstd::string::StringSliceAdditionalSpecFns;
use crate::coordinate::digits_end;
use crate::coordinate::is_digit;
use crate::coordinate::lemma_digits_run;
use crate::decimal::digit_char;
use crate::decimal::int_text;
use crate::decimal::nat_text;

verus! {

broadcast use vstd::string::is_ascii_spec_bytes;

/// Whether the text `part` stands in `s` at the position `p`.
pub open spec fn holds_at(s: Seq<char>, p: int, part: Seq<char>) -> bool {
    0 <= p && p + part.len() <= s.len() && s.subrange(p, p + part.len()) == part
}

/// Whether the character `c` stands in `s` at the position `p`.
pub open spec fn char_at(s: Seq<char>, p: int, c: char) -> bool {
    0 <= p < s.len() && s[p] == c
}

/// Where a text stands, each of its characters stands.
pub proof fn lemma_holds_char(s: Seq<char>, p: int, part: Seq<char>, k: int)
    requires
        holds_at(s, p, part),
        0 <= k < part.len(),
    ensures
        s[p + k] == part[k],
{
    assert(s.subrange(p, p + part.len())[k] == part[k]);
}

/// Two texts stand one behind the other where their concatenation stands.
pub proof fn lemma_holds_concat(s: Seq<char>, p: int, a: Seq<char>, b: Seq<char>)
    ensures
        holds_at(s, p, a + b) <==> holds_at(s, p, a) && holds_at(s, p + a.len(), b),
{
    let q = p + a.len();
    if holds_at(s, p, a + b) {
        assert forall|k: int| 0 <= k < a.len() implies s.subrange(p, q)[k] == a[k] by {
            lemma_holds_char(s, p, a + b, k);
        }
        assert(s.subrange(p, q) =~= a);
        assert forall|k: int| 0 <= k < b.len() implies s.subrange(q, q + b.len())[k] == b[k] by {
            lemma_holds_char(s, p, a + b, a.len() + k);
        }
        assert(s.subrange(q, q + b.len()) =~= b);
    }
    if holds_at(s, p, a) && holds_at(s, q, b) {
        assert forall|k: int| 0 <= k < (a + b).len() implies s.subrange(p, p + (a + b).len())[k]
            == (a + b)[k] by {
            if k < a.len() {
                lemma_holds_char(s, p, a, k);
            } else {
                lemma_holds_char(s, q, b, k - a.len());
            }
        }
        assert(s.subrange(p, p + (a + b).len()) =~= a + b);
    }
}

/// What was read when `head` was read first and `rest` behind it.
pub open spec fn after_items<T>(head: Seq<T>, rest: Option<(Seq<T>, int)>) -> Option<(Seq<T>, int)> {
    match rest {
        Some((items, k)) => Some((head + items, k)),
        None => None,
    }
}

/// The byte at a position of a text.
pub(crate) fn byte_at(text: &str, i: usize) -> (b: u8)
    requires
        text.is_ascii(),
        i < text@.len(),
    ensures
        b as int == text@[i as int] as int,
        b < 128,
{
    let bytes = text.as_bytes();
    bytes[i]
}

/// The number of characters of a text.
pub(crate) fn length(text: &str) -> (n: usize)
    requires
        text.is_ascii(),
    ensures
        n == text@.len(),
{
    text.as_bytes().len()
}

/// Whether a character stands at a position of a text.
pub(crate) fn has_byte(text: &str, i: usize, c: u8) -> (r: bool)
    requires
        text.is_ascii(),
        c < 128,
    ensures
        r == (i < text@.len() && text@[i as int] as int == c as int),
{
    i < length(text) && byte_at(text, i) == c
}

/// Reads the text `part` at `p`: the position behind it, if it stands there.
pub(crate) fn read_text(text: &str, p: usize, part: &str) -> (r: Option<usize>)
    requires
        text.is_ascii(),
    ensures
        r is Some <==> holds_at(text@, p as int, part@),
        r matches Some(q) ==> q == p + part@.len() && q <= text@.len(),
{
    if !part.is_ascii() {
        proof {
            if holds_at(text@, p as int, part@) {
                assert forall|k: int| 0 <= k < part@.len() implies '\0' <= #[trigger] part@[k]
                    <= '\u{7f}' by {
                    lemma_holds_char(text@, p as int, part@, k);
                }
            }
        }
        return None;
    }
    let n = length(part);
    let len = length(text);
    if p > len || n > len - p {
        return None;
    }
    let mut k: usize = 0;
    while k < n
        invariant
            text.is_ascii(),
            part.is_ascii(),
            n == part@.len(),
            len == text@.len(),
            p + n <= len,
            k <= n,
            forall|j: int| 0 <= j < k ==> text@[p + j] == part@[j],
        decreases n - k,
    {
        if byte_at(text, p + k) != byte_at(part, k) {
            proof {
                if holds_at(text@, p as int, part@) {
                    lemma_holds_char(text@, p as int, part@, k as int);
                }
            }
            return None;
        }
        k = k + 1;
    }
    assert(text@.subrange(p as int, p + n) =~= part@);
    Some(p + n)
}

/// The value of a decimal digit.
pub open spec fn digit_value(c: char) -> int {
    c as int - 48
}

/// The number that the digits from `i` up to `j` stand for, unless it or one
/// of its leading parts is above `limit`.
pub open spec fn nat_value(s: Seq<char>, i: int, j: int, limit: int) -> Option<int>
    decreases j - i,
{
    if j <= i {
        Some(0)
    } else {
        match nat_value(s, i, j - 1, limit) {
            Some(v) => if v * 10 + digit_value(s[j - 1]) <= limit {
                Some(v * 10 + digit_value(s[j - 1]))
            } else {
                None
            },
            None => None,
        }
    }
}

/// The natural number that stands at `i`, and the position behind it: the
/// digits that start there, taken as one number up to `limit`.
pub open spec fn parse_nat_at(s: Seq<char>, i: int, limit: int) -> Option<(int, int)> {
    let j = digits_end(s, i);
    if j <= i {
        None
    } else {
        match nat_value(s, i, j, limit) {
            Some(v) => Some((v, j)),
            None => None,
        }
    }
}

/// The integer that stands at `i`, and the position behind it: a natural
/// number up to `max`, or a minus sign and a natural number up to `-min`.
pub open spec fn parse_int_at(s: Seq<char>, i: int, min: int, max: int) -> Option<(int, int)> {
    if char_at(s, i, '-') {
        match parse_nat_at(s, i + 1, -min) {
            Some((v, j)) => Some((-v, j)),
            None => None,
        }
    } else {
        parse_nat_at(s, i, max)
    }
}

/// Digits that are too many for the limit stay so when more follow.
pub proof fn lemma_nat_value_stays_none(s: Seq<char>, i: int, k: int, j: int, limit: int)
    requires
        k <= j,
        nat_value(s, i, k, limit) is None,
    ensures
        nat_value(s, i, j, limit) is None,
    decreases j - k,
{
    if k < j {
        lemma_nat_value_stays_none(s, i, k, j - 1, limit);
    }
}

/// Reads the natural number at `i`.
pub(crate) fn read_nat(text: &str, i: usize, limit: u64) -> (r: Option<(u64, usize)>)
    requires
        text.is_ascii(),
        i <= text@.len(),
        limit <= 0xffff_ffff,
    ensures
        match r {
            Some((v, j)) => parse_nat_at(text@, i as int, limit as int) == Some(
                (v as int, j as int),
            ) && v <= limit && i < j <= text@.len(),
            None => parse_nat_at(text@, i as int, limit as int) is None,
        },
{
    let len = length(text);
    let mut k: usize = i;
    let mut value: u64 = 0;
    while k < len && 48 <= byte_at(text, k) && byte_at(text, k) <= 57
        invariant
            text.is_ascii(),
            len == text@.len(),
            i <= k <= len,
            limit <= 0xffff_ffff,
            value <= limit,
            digits_end(text@, k as int) == digits_end(text@, i as int),
            nat_value(text@, i as int, k as int, limit as int) == Some(value as int),
        decreases len - k,
    {
        let digit: u64 = (byte_at(text, k) - 48) as u64;
        let next: u64 = value * 10 + digit;
        if next > limit {
            proof {
                lemma_digits_run(text@, i as int);
                lemma_digits_run(text@, k as int);
                lemma_nat_value_stays_none(
                    text@,
                    i as int,
                    k + 1,
                    digits_end(text@, i as int),
                    limit as int,
                );
            }
            return None;
        }
        value = next;
        k = k + 1;
    }
    if k == i {
        None
    } else {
        Some((value, k))
    }
}

/// Reads the integer at `i`.
pub(crate) fn read_int(text: &str, i: usize, min: i64, max: i64) -> (r: Option<(i64, usize)>)
    requires
        text.is_ascii(),
        i <= text@.len(),
        -0xffff_ffff <= min <= 0 <= max <= 0xffff_ffff,
    ensures
        match r {
            Some((v, j)) => parse_int_at(text@, i as int, min as int, max as int) == Some(
                (v as int, j as int),
            ) && min <= v <= max && i < j <= text@.len(),
            None => parse_int_at(text@, i as int, min as int, max as int) is None,
        },
{
    let len = length(text);
    if has_byte(text, i, 45) {
        match read_nat(text, i + 1, (-min) as u64) {
            Some((v, j)) => Some((-(v as i64), j)),
            None => None,
        }
    } else {
        match read_nat(text, i, max as u64) {
            Some((v, j)) => Some((v as i64, j)),
            None => None,
        }
    }
}

/// A digit's character stands for the digit.
pub proof fn lemma_digit_value(d: int)
    requires
        0 <= d <= 9,
    ensures
        digit_value(digit_char(d)) == d,
        is_digit(digit_char(d)),
{
}

/// Where a natural number's text stands, its digits stand, and they are worth
/// the number.
pub proof fn lemma_nat_text_value(s: Seq<char>, p: int, n: nat, limit: int)
    requires
        holds_at(s, p, nat_text(n)),
        n <= limit,
    ensures
        nat_text(n).len() >= 1,
        nat_value(s, p, p + nat_text(n).len(), limit) == Some(n as int),
        forall|k: int| p <= k < p + nat_text(n).len() ==> is_digit(#[trigger] s[k]),
    decreases n,
{
    if n < 10 {
        lemma_holds_char(s, p, nat_text(n), 0);
        lemma_digit_value(n as int);
        assert(nat_value(s, p, p, limit) == Some(0int));
    } else {
        let head = nat_text(n / 10);
        let last = digit_char((n % 10) as int);
        assert(nat_text(n) =~= head + seq![last]);
        lemma_holds_concat(s, p, head, seq![last]);
        lemma_nat_text_value(s, p, n / 10, limit);
        lemma_holds_char(s, p + head.len(), seq![last], 0);
        lemma_digit_value((n % 10) as int);
        assert(nat_text(n).len() == head.len() + 1);
    }
}

/// A run of digits ends where the first character stands that is no digit.
pub proof fn lemma_digits_end(s: Seq<char>, p: int, q: int)
    requires
        0 <= p <= q <= s.len(),
        forall|k: int| p <= k < q ==> is_digit(#[trigger] s[k]),
        q < s.len() ==> !is_digit(s[q]),
    ensures
        digits_end(s, p) == q,
    decreases q - p,
{
    if p < q {
        lemma_digits_end(s, p + 1, q);
    }
}

/// An integer's text is not empty, and starts with a minus sign or a digit.
pub proof fn lemma_int_text_start(v: int)
    ensures
        int_text(v).len() >= 1,
        int_text(v)[0] == '-' || is_digit(int_text(v)[0]),
{
    if v < 0 {
    } else {
        lemma_nat_text_start(v as nat);
    }
}

/// A natural number's text is not empty, and starts with a digit.
pub proof fn lemma_nat_text_start(n: nat)
    ensures
        nat_text(n).len() >= 1,
        is_digit(nat_text(n)[0]),
    decreases n,
{
    if n < 10 {
        lemma_digit_value(n as int);
    } else {
        lemma_nat_text_start(n / 10);
    }
}

/// Where an integer's text stands and no digit follows it, that integer is
/// read.
pub proof fn lemma_int_text_parses(s: Seq<char>, p: int, v: int, min: int, max: int)
    requires
        holds_at(s, p, int_text(v)),
        min <= v <= max,
        min <= 0 <= max,
        p + int_text(v).len() < s.len() ==> !is_digit(s[p + int_text(v).len()]),
    ensures
        parse_int_at(s, p, min, max) == Some((v, p + int_text(v).len())),
{
    if v < 0 {
        let n = (-v) as nat;
        lemma_holds_concat(s, p, seq!['-'], nat_text(n));
        lemma_holds_char(s, p, seq!['-'], 0);
        lemma_nat_text_value(s, p + 1, n, -min);
        lemma_digits_end(s, p + 1, p + 1 + nat_text(n).len());
        assert(int_text(v).len() == 1 + nat_text(n).len());
    } else {
        let n = v as nat;
        lemma_nat_text_value(s, p, n, max);
        lemma_digits_end(s, p, p + nat_text(n).len());
        assert(is_digit(s[p]));
    }
}

} // verus!
