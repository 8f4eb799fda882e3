//! Reading lists of integers back from a document.

use vstd::prelude::*;
use crate::decimal::int_text;
use crate::document::i8_ints;
use crate::document::int_items;
use crate::document::int_list_text;
use crate::document::separator;
use crate::document::u32_ints;
use crate::document::u8_ints;
use crate::scan::after_items;
use crate::scan::char_at;
use crate::scan::has_byte;
use crate::scan::holds_at;
use crate::scan::lemma_holds_char;
use crate::scan::lemma_holds_concat;
use crate::scan::lemma_int_text_parses;
use crate::scan::lemma_int_text_start;
use crate::scan::length;
use crate::scan::parse_int_at;
use crate::scan::read_int;

verus! {

/// The items of a list and the position behind it, read from the first item
/// on: integers between `min` and `max` with commas between them, up to the
/// bracket that closes the list.
pub open spec fn parse_int_items(s: Seq<char>, i: int, min: int, max: int) -> Option<
    (Seq<int>, int),
>
    decreases s.len() - i,
{
    match parse_int_at(s, i, min, max) {
        None => None,
        Some((v, j)) => if j <= i {
            None
        } else if char_at(s, j, ',') {
            match parse_int_items(s, j + 1, min, max) {
                Some((rest, k)) => Some((seq![v] + rest, k)),
                None => None,
            }
        } else if char_at(s, j, ']') {
            Some((seq![v], j + 1))
        } else {
            None
        },
    }
}

/// The list of integers that stands at `i`, and the position behind it.
pub open spec fn parse_int_list(s: Seq<char>, i: int, min: int, max: int) -> Option<
    (Seq<int>, int),
> {
    if !char_at(s, i, '[') {
        None
    } else if char_at(s, i + 1, ']') {
        Some((Seq::empty(), i + 2))
    } else {
        parse_int_items(s, i + 1, min, max)
    }
}

/// The values of a sequence of `i64`.
pub open spec fn i64_ints(s: Seq<i64>) -> Seq<int> {
    Seq::new(s.len(), |i: int| s[i] as int)
}

/// Reads the list of integers at `i`.
pub(crate) fn read_int_list(text: &str, i: usize, min: i64, max: i64) -> (r: Option<(Vec<i64>, usize)>)
    requires
        text.is_ascii(),
        -0xffff_ffff <= min <= 0 <= max <= 0xffff_ffff,
    ensures
        match r {
            Some((items, j)) => {
                &&& parse_int_list(text@, i as int, min as int, max as int) == Some(
                    (i64_ints(items@), j as int),
                )
                &&& forall|k: int| 0 <= k < items@.len() ==> min <= #[trigger] items@[k] <= max
                &&& i < j <= text@.len()
            },
            None => parse_int_list(text@, i as int, min as int, max as int) is None,
        },
{
    let len = length(text);
    if !has_byte(text, i, 91) {
        return None;
    }
    let mut items: Vec<i64> = Vec::new();
    if has_byte(text, i + 1, 93) {
        assert(i64_ints(items@) =~= Seq::empty());
        return Some((items, i + 2));
    }
    let mut p: usize = i + 1;
    loop
        invariant
            text.is_ascii(),
            len == text@.len(),
            -0xffff_ffff <= min <= 0 <= max <= 0xffff_ffff,
            i < p <= len,
            char_at(text@, i as int, '['),
            !char_at(text@, i + 1, ']'),
            forall|k: int| 0 <= k < items@.len() ==> min <= #[trigger] items@[k] <= max,
            parse_int_items(text@, i + 1, min as int, max as int) == after_items(
                i64_ints(items@),
                parse_int_items(text@, p as int, min as int, max as int),
            ),
        decreases len - p,
    {
        let ghost before = i64_ints(items@);
        match read_int(text, p, min, max) {
            None => {
                return None;
            },
            Some((v, j)) => {
                items.push(v);
                assert(i64_ints(items@) =~= before + seq![v as int]);
                if has_byte(text, j, 44) {
                    proof {
                        let rest = parse_int_items(text@, j + 1, min as int, max as int);
                        if let Some((more, k)) = rest {
                            assert(before + (seq![v as int] + more) =~= i64_ints(items@) + more);
                        }
                    }
                    p = j + 1;
                } else if has_byte(text, j, 93) {
                    return Some((items, j + 1));
                } else {
                    return None;
                }
            },
        }
    }
}

/// Where the items of a list from `k` on stand, they are read.
pub proof fn lemma_int_items_parse(
    s: Seq<char>,
    p: int,
    items: Seq<int>,
    k: int,
    min: int,
    max: int,
)
    requires
        0 <= k < items.len(),
        min <= 0 <= max,
        forall|j: int| 0 <= j < items.len() ==> min <= #[trigger] items[j] <= max,
        holds_at(s, p, int_text(items[k]) + int_items(items, k + 1)),
    ensures
        parse_int_items(s, p, min, max) == Some(
            (items.skip(k), p + (int_text(items[k]) + int_items(items, k + 1)).len()),
        ),
    decreases items.len() - k,
{
    let item = int_text(items[k]);
    let rest = int_items(items, k + 1);
    let q = p + item.len();
    lemma_holds_concat(s, p, item, rest);
    lemma_int_text_start(items[k]);
    if k + 1 >= items.len() {
        lemma_holds_char(s, q, rest, 0);
        lemma_int_text_parses(s, p, items[k], min, max);
        assert(items.skip(k) =~= seq![items[k]]);
    } else {
        let next = int_text(items[k + 1]);
        let more = int_items(items, k + 2);
        assert(separator(k + 1) =~= seq![',']);
        assert(rest =~= seq![','] + (next + more));
        lemma_holds_concat(s, q, seq![','], next + more);
        lemma_holds_char(s, q, seq![','], 0);
        lemma_int_text_parses(s, p, items[k], min, max);
        lemma_int_items_parse(s, q + 1, items, k + 1, min, max);
        assert(items.skip(k) =~= seq![items[k]] + items.skip(k + 1));
    }
}

/// Where the text of a list of integers stands, that list is read.
pub proof fn lemma_int_list_parses(s: Seq<char>, p: int, items: Seq<int>, min: int, max: int)
    requires
        min <= 0 <= max,
        forall|j: int| 0 <= j < items.len() ==> min <= #[trigger] items[j] <= max,
        holds_at(s, p, int_list_text(items)),
    ensures
        parse_int_list(s, p, min, max) == Some((items, p + int_list_text(items).len())),
        int_list_text(items).len() >= 2,
{
    lemma_holds_concat(s, p, seq!['['], int_items(items, 0));
    lemma_holds_char(s, p, seq!['['], 0);
    if items.len() == 0 {
        lemma_holds_char(s, p + 1, int_items(items, 0), 0);
        assert(items =~= Seq::empty());
    } else {
        let first = int_text(items[0]);
        let rest = int_items(items, 1);
        assert(separator(0) + first =~= first);
        assert(int_items(items, 0) =~= first + rest);
        lemma_int_text_start(items[0]);
        lemma_holds_concat(s, p + 1, first, rest);
        lemma_holds_char(s, p + 1, first, 0);
        lemma_int_items_parse(s, p + 1, items, 0, min, max);
        assert(items.skip(0) =~= items);
    }
}

/// The list of `u8` that stands at `i`, and the position behind it.
pub open spec fn parse_u8_list(s: Seq<char>, i: int) -> Option<(Seq<u8>, int)> {
    match parse_int_list(s, i, 0, 255) {
        Some((items, j)) => Some((Seq::new(items.len(), |k: int| items[k] as u8), j)),
        None => None,
    }
}

/// The list of `i8` that stands at `i`, and the position behind it.
pub open spec fn parse_i8_list(s: Seq<char>, i: int) -> Option<(Seq<i8>, int)> {
    match parse_int_list(s, i, -128, 127) {
        Some((items, j)) => Some((Seq::new(items.len(), |k: int| items[k] as i8), j)),
        None => None,
    }
}

/// The list of `u32` that stands at `i`, and the position behind it.
pub open spec fn parse_u32_list(s: Seq<char>, i: int) -> Option<(Seq<u32>, int)> {
    match parse_int_list(s, i, 0, 0xffff_ffff) {
        Some((items, j)) => Some((Seq::new(items.len(), |k: int| items[k] as u32), j)),
        None => None,
    }
}

/// Reads the list of `u8` at `i`.
pub(crate) fn read_u8_list(text: &str, i: usize) -> (r: Option<(Vec<u8>, usize)>)
    requires
        text.is_ascii(),
    ensures
        match r {
            Some((items, j)) => parse_u8_list(text@, i as int) == Some((items@, j as int)) && i < j
                <= text@.len(),
            None => parse_u8_list(text@, i as int) is None,
        },
{
    match read_int_list(text, i, 0, 255) {
        Some((wide, j)) => {
            let mut items: Vec<u8> = Vec::new();
            let mut k: usize = 0;
            while k < wide.len()
                invariant
                    k <= wide.len(),
                    items@.len() == k,
                    forall|n: int| 0 <= n < wide@.len() ==> 0 <= #[trigger] wide@[n] <= 255,
                    forall|n: int| 0 <= n < k ==> items@[n] == wide@[n] as u8,
                decreases wide.len() - k,
            {
                items.push(wide[k] as u8);
                k = k + 1;
            }
            assert(items@ =~= Seq::new(wide@.len(), |n: int| i64_ints(wide@)[n] as u8));
            Some((items, j))
        },
        None => None,
    }
}

/// Reads the list of `i8` at `i`.
pub(crate) fn read_i8_list(text: &str, i: usize) -> (r: Option<(Vec<i8>, usize)>)
    requires
        text.is_ascii(),
    ensures
        match r {
            Some((items, j)) => parse_i8_list(text@, i as int) == Some((items@, j as int)) && i < j
                <= text@.len(),
            None => parse_i8_list(text@, i as int) is None,
        },
{
    match read_int_list(text, i, -128, 127) {
        Some((wide, j)) => {
            let mut items: Vec<i8> = Vec::new();
            let mut k: usize = 0;
            while k < wide.len()
                invariant
                    k <= wide.len(),
                    items@.len() == k,
                    forall|n: int| 0 <= n < wide@.len() ==> -128 <= #[trigger] wide@[n] <= 127,
                    forall|n: int| 0 <= n < k ==> items@[n] == wide@[n] as i8,
                decreases wide.len() - k,
            {
                items.push(wide[k] as i8);
                k = k + 1;
            }
            assert(items@ =~= Seq::new(wide@.len(), |n: int| i64_ints(wide@)[n] as i8));
            Some((items, j))
        },
        None => None,
    }
}

/// Reads the list of `u32` at `i`.
pub(crate) fn read_u32_list(text: &str, i: usize) -> (r: Option<(Vec<u32>, usize)>)
    requires
        text.is_ascii(),
    ensures
        match r {
            Some((items, j)) => parse_u32_list(text@, i as int) == Some((items@, j as int)) && i
                < j <= text@.len(),
            None => parse_u32_list(text@, i as int) is None,
        },
{
    match read_int_list(text, i, 0, 0xffff_ffff) {
        Some((wide, j)) => {
            let mut items: Vec<u32> = Vec::new();
            let mut k: usize = 0;
            while k < wide.len()
                invariant
                    k <= wide.len(),
                    items@.len() == k,
                    forall|n: int| 0 <= n < wide@.len() ==> 0 <= #[trigger] wide@[n] <= 0xffff_ffff,
                    forall|n: int| 0 <= n < k ==> items@[n] == wide@[n] as u32,
                decreases wide.len() - k,
            {
                items.push(wide[k] as u32);
                k = k + 1;
            }
            assert(items@ =~= Seq::new(wide@.len(), |n: int| i64_ints(wide@)[n] as u32));
            Some((items, j))
        },
        None => None,
    }
}

/// Where the text of a list of `u8` stands, that list is read.
pub proof fn lemma_u8_list_parses(s: Seq<char>, p: int, items: Seq<u8>)
    requires
        holds_at(s, p, int_list_text(u8_ints(items))),
    ensures
        parse_u8_list(s, p) == Some((items, p + int_list_text(u8_ints(items)).len())),
{
    lemma_int_list_parses(s, p, u8_ints(items), 0, 255);
    assert(Seq::new(items.len(), |k: int| u8_ints(items)[k] as u8) =~= items);
}

/// Where the text of a list of `i8` stands, that list is read.
pub proof fn lemma_i8_list_parses(s: Seq<char>, p: int, items: Seq<i8>)
    requires
        holds_at(s, p, int_list_text(i8_ints(items))),
    ensures
        parse_i8_list(s, p) == Some((items, p + int_list_text(i8_ints(items)).len())),
{
    lemma_int_list_parses(s, p, i8_ints(items), -128, 127);
    assert(Seq::new(items.len(), |k: int| i8_ints(items)[k] as i8) =~= items);
}

/// Where the text of a list of `u32` stands, that list is read.
pub proof fn lemma_u32_list_parses(s: Seq<char>, p: int, items: Seq<u32>)
    requires
        holds_at(s, p, int_list_text(u32_ints(items))),
    ensures
        parse_u32_list(s, p) == Some((items, p + int_list_text(u32_ints(items)).len())),
{
    lemma_int_list_parses(s, p, u32_ints(items), 0, 0xffff_ffff);
    assert(Seq::new(items.len(), |k: int| u32_ints(items)[k] as u32) =~= items);
}

} // verus!
