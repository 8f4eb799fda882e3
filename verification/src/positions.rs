//! Reading the positions of atoms back from a document.

use vstd::prelude::*;
use vstd::string::StrSliceExecFns;
use crate::coordinate::Coordinate;
use crate::coordinate::is_coordinate_char;
use crate::coordinate::is_coordinate_text;
use crate::coordinate::lemma_coordinate_chars;
use crate::document::conformer_items;
use crate::document::conformer_text;
use crate::document::conformers_text;
use crate::document::point_items;
use crate::document::point_text;
use crate::document::separator;
use crate::molecule::PointView;
use crate::molecule::conformer_is_valid;
use crate::molecule::conformers_are_valid;
use crate::molecule::point_is_valid;
use crate::molecule::conformer_view;
use crate::molecule::conformers_view;
use crate::molecule::point_view;
use crate::scan::after_items;
use crate::scan::byte_at;
use crate::scan::char_at;
use crate::scan::has_byte;
use crate::scan::holds_at;
use crate::scan::lemma_holds_char;
use crate::scan::lemma_holds_concat;
use crate::scan::length;

verus! {

/// The end of the longest run of coordinate characters that starts at `i`.
pub open spec fn coordinate_end(s: Seq<char>, i: int) -> int
    decreases s.len() - i,
{
    if 0 <= i < s.len() && is_coordinate_char(s[i]) {
        coordinate_end(s, i + 1)
    } else {
        i
    }
}

/// The coordinate that stands at `i`, and the position behind it: the
/// coordinate characters that start there, if they make a coordinate.
pub open spec fn parse_coordinate_at(s: Seq<char>, i: int) -> Option<(Seq<char>, int)> {
    let j = coordinate_end(s, i);
    if 0 <= i <= j <= s.len() && is_coordinate_text(s.subrange(i, j)) {
        Some((s.subrange(i, j), j))
    } else {
        None
    }
}

/// The position of an atom that stands at `i`, and the position behind it.
pub open spec fn parse_point_at(s: Seq<char>, i: int) -> Option<(PointView, int)> {
    if !char_at(s, i, '[') {
        None
    } else {
        match parse_coordinate_at(s, i + 1) {
            None => None,
            Some((x, a)) => if !char_at(s, a, ',') {
                None
            } else {
                match parse_coordinate_at(s, a + 1) {
                    None => None,
                    Some((y, b)) => if !char_at(s, b, ',') {
                        None
                    } else {
                        match parse_coordinate_at(s, b + 1) {
                            None => None,
                            Some((z, c)) => if !char_at(s, c, ']') {
                                None
                            } else {
                                Some((PointView { x, y, z }, c + 1))
                            },
                        }
                    },
                }
            },
        }
    }
}

/// The positions of a conformer and the position behind it, read from the
/// first one on.
pub open spec fn parse_point_items(s: Seq<char>, i: int) -> Option<(Seq<PointView>, int)>
    decreases s.len() - i,
{
    match parse_point_at(s, i) {
        None => None,
        Some((v, j)) => if j <= i {
            None
        } else if char_at(s, j, ',') {
            match parse_point_items(s, j + 1) {
                Some((rest, k)) => Some((seq![v] + rest, k)),
                None => None,
            }
        } else if char_at(s, j, ']') {
            Some((seq![v], j + 1))
        } else {
            None
        },
    }
}

/// The conformer that stands at `i`, and the position behind it.
pub open spec fn parse_conformer_at(s: Seq<char>, i: int) -> Option<(Seq<PointView>, int)> {
    if !char_at(s, i, '[') {
        None
    } else if char_at(s, i + 1, ']') {
        Some((Seq::empty(), i + 2))
    } else {
        parse_point_items(s, i + 1)
    }
}

/// The conformers and the position behind them, read from the first one on.
pub open spec fn parse_conformer_items(s: Seq<char>, i: int) -> Option<
    (Seq<Seq<PointView>>, int),
>
    decreases s.len() - i,
{
    match parse_conformer_at(s, i) {
        None => None,
        Some((v, j)) => if j <= i {
            None
        } else if char_at(s, j, ',') {
            match parse_conformer_items(s, j + 1) {
                Some((rest, k)) => Some((seq![v] + rest, k)),
                None => None,
            }
        } else if char_at(s, j, ']') {
            Some((seq![v], j + 1))
        } else {
            None
        },
    }
}

/// The list of conformers that stands at `i`, and the position behind it.
pub open spec fn parse_conformers_at(s: Seq<char>, i: int) -> Option<(Seq<Seq<PointView>>, int)> {
    if !char_at(s, i, '[') {
        None
    } else if char_at(s, i + 1, ']') {
        Some((Seq::empty(), i + 2))
    } else {
        parse_conformer_items(s, i + 1)
    }
}

/// Whether a coordinate character stands at `k`.
fn coordinate_char_at(text: &str, k: usize) -> (r: bool)
    requires
        text.is_ascii(),
        k < text@.len(),
    ensures
        r == is_coordinate_char(text@[k as int]),
{
    let b = byte_at(text, k);
    (48 <= b && b <= 57) || b == 45 || b == 43 || b == 46 || b == 101 || b == 69 || b == 110 || b
        == 117 || b == 108
}

/// Reads the coordinate at `i`.
pub(crate) fn read_coordinate(text: &str, i: usize) -> (r: Option<(Coordinate, usize)>)
    requires
        text.is_ascii(),
    ensures
        match r {
            Some((c, j)) => parse_coordinate_at(text@, i as int) == Some((c@, j as int)) && i < j
                <= text@.len(),
            None => parse_coordinate_at(text@, i as int) is None,
        },
{
    let len = length(text);
    if i > len {
        proof {
            assert(coordinate_end(text@, i as int) == i);
        }
        return None;
    }
    let mut k: usize = i;
    while k < len && coordinate_char_at(text, k)
        invariant
            text.is_ascii(),
            len == text@.len(),
            i <= k <= len,
            coordinate_end(text@, k as int) == coordinate_end(text@, i as int),
        decreases len - k,
    {
        k = k + 1;
    }
    let part = text.substring_ascii(i, k);
    match Coordinate::new(part) {
        Some(c) => {
            proof {
                lemma_coordinate_chars(part@);
            }
            Some((c, k))
        },
        None => None,
    }
}

/// Reads the position of an atom at `i`.
pub(crate) fn read_point(text: &str, i: usize) -> (r: Option<([Coordinate; 3], usize)>)
    requires
        text.is_ascii(),
    ensures
        match r {
            Some((p, j)) => parse_point_at(text@, i as int) == Some((point_view(p), j as int)) && i
                < j <= text@.len(),
            None => parse_point_at(text@, i as int) is None,
        },
{
    let len = length(text);
    if !has_byte(text, i, 91) {
        return None;
    }
    let (x, a) = match read_coordinate(text, i + 1) {
        Some(found) => found,
        None => {
            return None;
        },
    };
    if !has_byte(text, a, 44) {
        return None;
    }
    let (y, b) = match read_coordinate(text, a + 1) {
        Some(found) => found,
        None => {
            return None;
        },
    };
    if !has_byte(text, b, 44) {
        return None;
    }
    let (z, c) = match read_coordinate(text, b + 1) {
        Some(found) => found,
        None => {
            return None;
        },
    };
    if !has_byte(text, c, 93) {
        return None;
    }
    let ghost expected = PointView { x: x@, y: y@, z: z@ };
    let p = [x, y, z];
    assert(point_view(p) == expected);
    Some((p, c + 1))
}

/// Reads the conformer at `i`.
pub(crate) fn read_conformer(text: &str, i: usize) -> (r: Option<(Vec<[Coordinate; 3]>, usize)>)
    requires
        text.is_ascii(),
    ensures
        match r {
            Some((points, j)) => parse_conformer_at(text@, i as int) == Some(
                (conformer_view(points), j as int),
            ) && i < j <= text@.len(),
            None => parse_conformer_at(text@, i as int) is None,
        },
{
    let len = length(text);
    if !has_byte(text, i, 91) {
        return None;
    }
    let mut points: Vec<[Coordinate; 3]> = Vec::new();
    if has_byte(text, i + 1, 93) {
        assert(conformer_view(points) =~= Seq::empty());
        return Some((points, i + 2));
    }
    let mut p: usize = i + 1;
    loop
        invariant
            text.is_ascii(),
            len == text@.len(),
            i < p <= len,
            char_at(text@, i as int, '['),
            !char_at(text@, i + 1, ']'),
            parse_point_items(text@, i + 1) == after_items(
                conformer_view(points),
                parse_point_items(text@, p as int),
            ),
        decreases len - p,
    {
        let ghost before = conformer_view(points);
        match read_point(text, p) {
            None => {
                return None;
            },
            Some((v, j)) => {
                let ghost item = point_view(v);
                points.push(v);
                assert(conformer_view(points) =~= before + seq![item]);
                if has_byte(text, j, 44) {
                    proof {
                        let rest = parse_point_items(text@, j + 1);
                        if let Some((more, k)) = rest {
                            assert(before + (seq![item] + more) =~= conformer_view(points) + more);
                        }
                    }
                    p = j + 1;
                } else if has_byte(text, j, 93) {
                    return Some((points, j + 1));
                } else {
                    return None;
                }
            },
        }
    }
}

/// Reads the list of conformers at `i`.
pub(crate) fn read_conformers(text: &str, i: usize) -> (r: Option<(Vec<Vec<[Coordinate; 3]>>, usize)>)
    requires
        text.is_ascii(),
    ensures
        match r {
            Some((conformers, j)) => parse_conformers_at(text@, i as int) == Some(
                (conformers_view(conformers), j as int),
            ) && i < j <= text@.len(),
            None => parse_conformers_at(text@, i as int) is None,
        },
{
    let len = length(text);
    if !has_byte(text, i, 91) {
        return None;
    }
    let mut conformers: Vec<Vec<[Coordinate; 3]>> = Vec::new();
    if has_byte(text, i + 1, 93) {
        assert(conformers_view(conformers) =~= Seq::empty());
        return Some((conformers, i + 2));
    }
    let mut p: usize = i + 1;
    loop
        invariant
            text.is_ascii(),
            len == text@.len(),
            i < p <= len,
            char_at(text@, i as int, '['),
            !char_at(text@, i + 1, ']'),
            parse_conformer_items(text@, i + 1) == after_items(
                conformers_view(conformers),
                parse_conformer_items(text@, p as int),
            ),
        decreases len - p,
    {
        let ghost before = conformers_view(conformers);
        match read_conformer(text, p) {
            None => {
                return None;
            },
            Some((v, j)) => {
                let ghost item = conformer_view(v);
                conformers.push(v);
                assert(conformers_view(conformers) =~= before + seq![item]);
                if has_byte(text, j, 44) {
                    proof {
                        let rest = parse_conformer_items(text@, j + 1);
                        if let Some((more, k)) = rest {
                            assert(before + (seq![item] + more) =~= conformers_view(conformers)
                                + more);
                        }
                    }
                    p = j + 1;
                } else if has_byte(text, j, 93) {
                    return Some((conformers, j + 1));
                } else {
                    return None;
                }
            },
        }
    }
}

/// A run of coordinate characters ends where the first character stands that
/// is none.
pub proof fn lemma_coordinate_end(s: Seq<char>, p: int, q: int)
    requires
        0 <= p <= q <= s.len(),
        forall|k: int| p <= k < q ==> is_coordinate_char(#[trigger] s[k]),
        q < s.len() ==> !is_coordinate_char(s[q]),
    ensures
        coordinate_end(s, p) == q,
    decreases q - p,
{
    if p < q {
        lemma_coordinate_end(s, p + 1, q);
    }
}

/// Where a coordinate's text stands and no coordinate character follows it,
/// that coordinate is read.
pub proof fn lemma_coordinate_parses(s: Seq<char>, p: int, c: Seq<char>)
    requires
        holds_at(s, p, c),
        is_coordinate_text(c),
        p + c.len() < s.len() ==> !is_coordinate_char(s[p + c.len()]),
    ensures
        parse_coordinate_at(s, p) == Some((c, p + c.len())),
        c.len() >= 1,
{
    lemma_coordinate_chars(c);
    assert forall|k: int| p <= k < p + c.len() implies is_coordinate_char(#[trigger] s[k]) by {
        lemma_holds_char(s, p, c, k - p);
    }
    lemma_coordinate_end(s, p, p + c.len());
}

/// Where the text of a valid position stands, that position is read.
pub proof fn lemma_point_parses(s: Seq<char>, p: int, point: PointView)
    requires
        holds_at(s, p, point_text(point)),
        point_is_valid(point),
    ensures
        parse_point_at(s, p) == Some((point, p + point_text(point).len())),
        point_text(point).len() >= 1,
        point_text(point)[0] == '[',
{
    let open = seq!['['];
    let comma = seq![','];
    let close = seq![']'];
    let a = p + 1 + point.x.len();
    let b = a + 1 + point.y.len();
    let c = b + 1 + point.z.len();
    lemma_holds_concat(s, p, open + point.x + comma + point.y + comma + point.z, close);
    lemma_holds_concat(s, p, open + point.x + comma + point.y + comma, point.z);
    lemma_holds_concat(s, p, open + point.x + comma + point.y, comma);
    lemma_holds_concat(s, p, open + point.x + comma, point.y);
    lemma_holds_concat(s, p, open + point.x, comma);
    lemma_holds_concat(s, p, open, point.x);
    lemma_holds_char(s, p, open, 0);
    lemma_holds_char(s, a, comma, 0);
    lemma_holds_char(s, b, comma, 0);
    lemma_holds_char(s, c, close, 0);
    lemma_coordinate_parses(s, p + 1, point.x);
    lemma_coordinate_parses(s, a + 1, point.y);
    lemma_coordinate_parses(s, b + 1, point.z);
}

/// Where the positions of a conformer from `k` on stand, they are read.
pub proof fn lemma_point_items_parse(s: Seq<char>, p: int, points: Seq<PointView>, k: int)
    requires
        0 <= k < points.len(),
        conformer_is_valid(points),
        holds_at(s, p, point_text(points[k]) + point_items(points, k + 1)),
    ensures
        parse_point_items(s, p) == Some(
            (points.skip(k), p + (point_text(points[k]) + point_items(points, k + 1)).len()),
        ),
    decreases points.len() - k,
{
    let item = point_text(points[k]);
    let rest = point_items(points, k + 1);
    let q = p + item.len();
    lemma_holds_concat(s, p, item, rest);
    lemma_point_parses(s, p, points[k]);
    if k + 1 >= points.len() {
        lemma_holds_char(s, q, rest, 0);
        assert(points.skip(k) =~= seq![points[k]]);
    } else {
        let next = point_text(points[k + 1]);
        let more = point_items(points, k + 2);
        assert(separator(k + 1) =~= seq![',']);
        assert(rest =~= seq![','] + (next + more));
        lemma_holds_concat(s, q, seq![','], next + more);
        lemma_holds_char(s, q, seq![','], 0);
        lemma_point_items_parse(s, q + 1, points, k + 1);
        assert(points.skip(k) =~= seq![points[k]] + points.skip(k + 1));
    }
}

/// Where the text of a valid conformer stands, that conformer is read.
pub proof fn lemma_conformer_parses(s: Seq<char>, p: int, points: Seq<PointView>)
    requires
        conformer_is_valid(points),
        holds_at(s, p, conformer_text(points)),
    ensures
        parse_conformer_at(s, p) == Some((points, p + conformer_text(points).len())),
        conformer_text(points).len() >= 2,
        conformer_text(points)[0] == '[',
{
    lemma_holds_concat(s, p, seq!['['], point_items(points, 0));
    lemma_holds_char(s, p, seq!['['], 0);
    if points.len() == 0 {
        lemma_holds_char(s, p + 1, point_items(points, 0), 0);
        assert(points =~= Seq::empty());
    } else {
        let first = point_text(points[0]);
        let rest = point_items(points, 1);
        assert(separator(0) + first =~= first);
        assert(point_items(points, 0) =~= first + rest);
        lemma_holds_concat(s, p + 1, first, rest);
        lemma_point_parses(s, p + 1, points[0]);
        lemma_holds_char(s, p + 1, first, 0);
        lemma_point_items_parse(s, p + 1, points, 0);
        assert(points.skip(0) =~= points);
    }
}

/// Where the conformers from `k` on stand, they are read.
pub proof fn lemma_conformer_items_parse(
    s: Seq<char>,
    p: int,
    conformers: Seq<Seq<PointView>>,
    k: int,
)
    requires
        0 <= k < conformers.len(),
        conformers_are_valid(conformers),
        holds_at(s, p, conformer_text(conformers[k]) + conformer_items(conformers, k + 1)),
    ensures
        parse_conformer_items(s, p) == Some(
            (
                conformers.skip(k),
                p + (conformer_text(conformers[k]) + conformer_items(conformers, k + 1)).len(),
            ),
        ),
    decreases conformers.len() - k,
{
    let item = conformer_text(conformers[k]);
    let rest = conformer_items(conformers, k + 1);
    let q = p + item.len();
    lemma_holds_concat(s, p, item, rest);
    lemma_conformer_parses(s, p, conformers[k]);
    if k + 1 >= conformers.len() {
        lemma_holds_char(s, q, rest, 0);
        assert(conformers.skip(k) =~= seq![conformers[k]]);
    } else {
        let next = conformer_text(conformers[k + 1]);
        let more = conformer_items(conformers, k + 2);
        assert(separator(k + 1) =~= seq![',']);
        assert(rest =~= seq![','] + (next + more));
        lemma_holds_concat(s, q, seq![','], next + more);
        lemma_holds_char(s, q, seq![','], 0);
        lemma_conformer_items_parse(s, q + 1, conformers, k + 1);
        assert(conformers.skip(k) =~= seq![conformers[k]] + conformers.skip(k + 1));
    }
}

/// Where the text of a list of valid conformers stands, that list is read.
pub proof fn lemma_conformers_parse(s: Seq<char>, p: int, conformers: Seq<Seq<PointView>>)
    requires
        conformers_are_valid(conformers),
        holds_at(s, p, conformers_text(conformers)),
    ensures
        parse_conformers_at(s, p) == Some((conformers, p + conformers_text(conformers).len())),
{
    lemma_holds_concat(s, p, seq!['['], conformer_items(conformers, 0));
    lemma_holds_char(s, p, seq!['['], 0);
    if conformers.len() == 0 {
        lemma_holds_char(s, p + 1, conformer_items(conformers, 0), 0);
        assert(conformers =~= Seq::empty());
    } else {
        let first = conformer_text(conformers[0]);
        let rest = conformer_items(conformers, 1);
        assert(separator(0) + first =~= first);
        assert(conformer_items(conformers, 0) =~= first + rest);
        lemma_holds_concat(s, p + 1, first, rest);
        lemma_conformer_parses(s, p + 1, conformers[0]);
        lemma_holds_char(s, p + 1, first, 0);
        lemma_conformer_items_parse(s, p + 1, conformers, 0);
        assert(conformers.skip(0) =~= conformers);
    }
}

} // verus!
