//! One coordinate of an atom's position, kept as the number literal that a
//! document holds for it.

use vstd::prelude::*;
use vstd::string::StringExecFns;
use vstd::string::StringSliceAdditionalSpecFns;

verus! {

broadcast use vstd::string::is_ascii_spec_bytes;

/// Whether a character is a decimal digit.
pub open spec fn is_digit(c: char) -> bool {
    '0' <= c <= '9'
}

/// The end of the longest run of digits that starts at `i`.
pub open spec fn digits_end(s: Seq<char>, i: int) -> int
    decreases s.len() - i,
{
    if 0 <= i < s.len() && is_digit(s[i]) {
        digits_end(s, i + 1)
    } else {
        i
    }
}

/// Where the integer part of a number literal starts: behind its sign.
pub open spec fn integer_start(s: Seq<char>) -> int {
    if s.len() > 0 && s[0] == '-' {
        1
    } else {
        0
    }
}

/// Whether a fraction follows at `b`.
pub open spec fn has_fraction(s: Seq<char>, b: int) -> bool {
    0 <= b < s.len() && s[b] == '.'
}

/// Where the fraction that may follow at `b` ends.
pub open spec fn fraction_end(s: Seq<char>, b: int) -> int {
    if has_fraction(s, b) {
        digits_end(s, b + 1)
    } else {
        b
    }
}

/// Whether an exponent follows at `c`.
pub open spec fn has_exponent(s: Seq<char>, c: int) -> bool {
    0 <= c < s.len() && (s[c] == 'e' || s[c] == 'E')
}

/// Where the digits of the exponent at `c` start: behind its sign.
pub open spec fn exponent_start(s: Seq<char>, c: int) -> int {
    if c + 1 < s.len() && (s[c + 1] == '+' || s[c + 1] == '-') {
        c + 2
    } else {
        c + 1
    }
}

/// Where the exponent that may follow at `c` ends.
pub open spec fn exponent_end(s: Seq<char>, c: int) -> int {
    if has_exponent(s, c) {
        digits_end(s, exponent_start(s, c))
    } else {
        c
    }
}

/// A number literal: an optional minus sign, an integer part without a leading
/// zero, an optional fraction and an optional exponent.
pub open spec fn is_number_literal(s: Seq<char>) -> bool {
    let a = integer_start(s);
    let b = digits_end(s, a);
    let c = fraction_end(s, b);
    let d = exponent_end(s, c);
    &&& a < b
    &&& s[a] == '0' ==> b == a + 1
    &&& has_fraction(s, b) ==> b + 1 < c
    &&& has_exponent(s, c) ==> exponent_start(s, c) < d
    &&& d == s.len()
}

/// What a document may hold for a coordinate: a number literal, or `null` for
/// a value that is no finite number.
pub open spec fn is_coordinate_text(s: Seq<char>) -> bool {
    is_number_literal(s) || s == "null"@
}

/// One coordinate, as the text that a document holds for it.
#[derive(Debug, PartialEq, Eq)]
pub struct Coordinate {
    text: String,
}

/// The end of the longest run of digits that starts at `i`.
fn scan_digits(text: &str, i: usize) -> (j: usize)
    requires
        text.is_ascii(),
        i <= text@.len(),
    ensures
        j == digits_end(text@, i as int),
        i <= j <= text@.len(),
{
    let bytes = text.as_bytes();
    let mut j: usize = i;
    while j < bytes.len() && 48 <= bytes[j] && bytes[j] <= 57
        invariant
            text.is_ascii(),
            bytes@ == text.spec_bytes(),
            i <= j <= text@.len(),
            digits_end(text@, j as int) == digits_end(text@, i as int),
        decreases text@.len() - j,
    {
        j = j + 1;
    }
    j
}

impl Coordinate {
    /// The text of the coordinate.
    pub closed spec fn view(&self) -> Seq<char> {
        self.text@
    }

    #[verifier::type_invariant]
    closed spec fn well_formed(&self) -> bool {
        is_coordinate_text(self.text@)
    }

    /// Takes a text as a coordinate, if it is a number literal or `null`.
    pub fn new(text: &str) -> (r: Option<Coordinate>)
        ensures
            r is Some <==> is_coordinate_text(text@),
            r matches Some(c) ==> c@ == text@,
    {
        if Self::accepts(text) {
            Some(Coordinate { text: String::from_str(text) })
        } else {
            None
        }
    }

    /// Whether a text is a number literal or `null`.
    pub fn accepts(text: &str) -> (r: bool)
        ensures
            r == is_coordinate_text(text@),
    {
        proof {
            reveal_strlit("null");
        }
        if !text.is_ascii() {
            proof {
                if is_coordinate_text(text@) {
                    lemma_coordinate_chars(text@);
                }
            }
            return false;
        }
        let bytes = text.as_bytes();
        let n = bytes.len();
        if n == 4 && bytes[0] == 110 && bytes[1] == 117 && bytes[2] == 108 && bytes[3] == 108 {
            assert(text@ =~= "null"@);
            return true;
        }
        assert(text@ != "null"@) by {
            if text@ == "null"@ {
                assert(text@[0] == 'n' && text@[1] == 'u' && text@[2] == 'l' && text@[3] == 'l');
            }
        }
        let a: usize = if n > 0 && bytes[0] == 45 {
            1
        } else {
            0
        };
        let b = scan_digits(text, a);
        if b <= a {
            return false;
        }
        if bytes[a] == 48 && b != a + 1 {
            return false;
        }
        let mut c = b;
        if b < n && bytes[b] == 46 {
            c = scan_digits(text, b + 1);
            if c <= b + 1 {
                return false;
            }
        }
        let mut d = c;
        if c < n && (bytes[c] == 101 || bytes[c] == 69) {
            let k: usize = if c + 1 < n && (bytes[c + 1] == 43 || bytes[c + 1] == 45) {
                c + 2
            } else {
                c + 1
            };
            d = scan_digits(text, k);
            if d <= k {
                return false;
            }
        }
        d == n
    }

    /// The text of the coordinate.
    pub fn as_str(&self) -> (s: &str)
        ensures
            s@ == self@,
            is_coordinate_text(s@),
    {
        proof {
            use_type_invariant(self);
        }
        self.text.as_str()
    }
}

/// The characters that a coordinate's text is made of.
pub open spec fn is_coordinate_char(c: char) -> bool {
    is_digit(c) || c == '-' || c == '+' || c == '.' || c == 'e' || c == 'E' || c == 'n' || c == 'u'
        || c == 'l'
}

/// Between a position and the end of the digits that start there, all are digits.
pub proof fn lemma_digits_run(s: Seq<char>, i: int)
    requires
        0 <= i <= s.len(),
    ensures
        i <= digits_end(s, i) <= s.len(),
        forall|k: int| i <= k < digits_end(s, i) ==> is_digit(#[trigger] s[k]),
        digits_end(s, i) < s.len() ==> !is_digit(s[digits_end(s, i)]),
    decreases s.len() - i,
{
    if i < s.len() && is_digit(s[i]) {
        lemma_digits_run(s, i + 1);
    }
}

/// A coordinate's text is not empty and made of the characters of coordinates.
pub proof fn lemma_coordinate_chars(s: Seq<char>)
    requires
        is_coordinate_text(s),
    ensures
        s.len() > 0,
        forall|k: int| 0 <= k < s.len() ==> is_coordinate_char(#[trigger] s[k]),
{
    reveal_strlit("null");
    if is_number_literal(s) {
        let a = integer_start(s);
        let b = digits_end(s, a);
        lemma_digits_run(s, a);
        let c = fraction_end(s, b);
        if has_fraction(s, b) {
            lemma_digits_run(s, b + 1);
        }
        let d = exponent_end(s, c);
        if has_exponent(s, c) {
            lemma_digits_run(s, exponent_start(s, c));
        }
        assert forall|k: int| 0 <= k < s.len() implies is_coordinate_char(#[trigger] s[k]) by {
            if k < a {
            } else if k < b {
            } else if k < c {
            } else {
            }
        }
    }
}

} // verus!
