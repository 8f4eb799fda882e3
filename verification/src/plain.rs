//! A document holds none but the first 128 characters.

use vstd::prelude::*;
use vstd::utf8::is_ascii_chars;
use crate::coordinate::lemma_coordinate_chars;
use crate::decimal::int_text;
use crate::decimal::nat_text;
use crate::document::aromatic_bonds_field;
use crate::document::aromatic_bonds_text;
use crate::document::bonds_field;
use crate::document::bonds_text;
use crate::document::charges_field;
use crate::document::conformer_items;
use crate::document::conformer_text;
use crate::document::conformers_field;
use crate::document::conformers_text;
use crate::document::dative_bonds_field;
use crate::document::i8_ints;
use crate::document::int_items;
use crate::document::int_list_text;
use crate::document::molecule_text;
use crate::document::point_items;
use crate::document::point_text;
use crate::document::separator;
use crate::document::u32_ints;
use crate::document::u8_ints;
use crate::molecule::AromaticBondsView;
use crate::molecule::BondsView;
use crate::molecule::MoleculeView;
use crate::molecule::PointView;
use crate::molecule::conformer_is_valid;
use crate::molecule::conformers_are_valid;
use crate::molecule::molecule_is_valid;
use crate::molecule::point_is_valid;

verus! {

/// Two plain texts make a plain text.
pub proof fn lemma_plain_concat(a: Seq<char>, b: Seq<char>)
    requires
        is_ascii_chars(a),
        is_ascii_chars(b),
    ensures
        is_ascii_chars(a + b),
{
    assert forall|i: int| 0 <= i < (a + b).len() implies '\0' <= #[trigger] (a + b)[i]
        <= '\u{7f}' by {
        if i < a.len() {
            assert((a + b)[i] == a[i]);
        } else {
            assert((a + b)[i] == b[i - a.len()]);
        }
    }
}

/// A natural number's text is plain.
pub proof fn lemma_nat_text_plain(n: nat)
    ensures
        is_ascii_chars(nat_text(n)),
    decreases n,
{
    if n >= 10 {
        lemma_nat_text_plain(n / 10);
    }
}

/// An integer's text is plain.
pub proof fn lemma_int_text_plain(v: int)
    ensures
        is_ascii_chars(int_text(v)),
{
    if v < 0 {
        lemma_nat_text_plain((-v) as nat);
        lemma_plain_concat(seq!['-'], nat_text((-v) as nat));
    } else {
        lemma_nat_text_plain(v as nat);
    }
}

/// The items of a list of integers are plain.
pub proof fn lemma_int_items_plain(items: Seq<int>, k: int)
    requires
        0 <= k,
    ensures
        is_ascii_chars(int_items(items, k)),
    decreases items.len() - k,
{
    if k < items.len() {
        lemma_int_text_plain(items[k]);
        lemma_int_items_plain(items, k + 1);
        lemma_plain_concat(separator(k), int_text(items[k]));
        lemma_plain_concat(separator(k) + int_text(items[k]), int_items(items, k + 1));
    }
}

/// A list of integers is plain.
pub proof fn lemma_int_list_plain(items: Seq<int>)
    ensures
        is_ascii_chars(int_list_text(items)),
{
    lemma_int_items_plain(items, 0);
    lemma_plain_concat(seq!['['], int_items(items, 0));
}

/// A valid position's text is plain.
pub proof fn lemma_point_text_plain(p: PointView)
    requires
        point_is_valid(p),
    ensures
        is_ascii_chars(point_text(p)),
{
    lemma_coordinate_chars(p.x);
    lemma_coordinate_chars(p.y);
    lemma_coordinate_chars(p.z);
    let open = seq!['['];
    let comma = seq![','];
    lemma_plain_concat(open, p.x);
    lemma_plain_concat(open + p.x, comma);
    lemma_plain_concat(open + p.x + comma, p.y);
    lemma_plain_concat(open + p.x + comma + p.y, comma);
    lemma_plain_concat(open + p.x + comma + p.y + comma, p.z);
    lemma_plain_concat(open + p.x + comma + p.y + comma + p.z, seq![']']);
}

/// The positions of a valid conformer are plain.
pub proof fn lemma_point_items_plain(points: Seq<PointView>, k: int)
    requires
        0 <= k,
        conformer_is_valid(points),
    ensures
        is_ascii_chars(point_items(points, k)),
    decreases points.len() - k,
{
    if k < points.len() {
        lemma_point_text_plain(points[k]);
        lemma_point_items_plain(points, k + 1);
        lemma_plain_concat(separator(k), point_text(points[k]));
        lemma_plain_concat(separator(k) + point_text(points[k]), point_items(points, k + 1));
    }
}

/// A valid conformer's text is plain.
pub proof fn lemma_conformer_text_plain(points: Seq<PointView>)
    requires
        conformer_is_valid(points),
    ensures
        is_ascii_chars(conformer_text(points)),
{
    lemma_point_items_plain(points, 0);
    lemma_plain_concat(seq!['['], point_items(points, 0));
}

/// Valid conformers are plain.
pub proof fn lemma_conformer_items_plain(conformers: Seq<Seq<PointView>>, k: int)
    requires
        0 <= k,
        conformers_are_valid(conformers),
    ensures
        is_ascii_chars(conformer_items(conformers, k)),
    decreases conformers.len() - k,
{
    if k < conformers.len() {
        lemma_conformer_text_plain(conformers[k]);
        lemma_conformer_items_plain(conformers, k + 1);
        lemma_plain_concat(separator(k), conformer_text(conformers[k]));
        lemma_plain_concat(
            separator(k) + conformer_text(conformers[k]),
            conformer_items(conformers, k + 1),
        );
    }
}

/// The list of valid conformers is plain.
pub proof fn lemma_conformers_text_plain(conformers: Seq<Seq<PointView>>)
    requires
        conformers_are_valid(conformers),
    ensures
        is_ascii_chars(conformers_text(conformers)),
{
    lemma_conformer_items_plain(conformers, 0);
    lemma_plain_concat(seq!['['], conformer_items(conformers, 0));
}

/// The text of covalent or dative bonds is plain.
pub proof fn lemma_bonds_text_plain(b: BondsView)
    ensures
        is_ascii_chars(bonds_text(b)),
{
    reveal_strlit("{\"atom1\":");
    reveal_strlit(",\"atom2\":");
    reveal_strlit(",\"order\":");
    reveal_strlit("}");
    let t1 = "{\"atom1\":"@;
    let l1 = int_list_text(u32_ints(b.atom1));
    let t2 = ",\"atom2\":"@;
    let l2 = int_list_text(u32_ints(b.atom2));
    let t3 = ",\"order\":"@;
    let l3 = int_list_text(u8_ints(b.order));
    lemma_int_list_plain(u32_ints(b.atom1));
    lemma_int_list_plain(u32_ints(b.atom2));
    lemma_int_list_plain(u8_ints(b.order));
    lemma_plain_concat(t1, l1);
    lemma_plain_concat(t1 + l1, t2);
    lemma_plain_concat(t1 + l1 + t2, l2);
    lemma_plain_concat(t1 + l1 + t2 + l2, t3);
    lemma_plain_concat(t1 + l1 + t2 + l2 + t3, l3);
    lemma_plain_concat(t1 + l1 + t2 + l2 + t3 + l3, "}"@);
}

/// The text of aromatic bonds is plain.
pub proof fn lemma_aromatic_bonds_text_plain(b: AromaticBondsView)
    ensures
        is_ascii_chars(aromatic_bonds_text(b)),
{
    reveal_strlit("{\"atom1\":");
    reveal_strlit(",\"atom2\":");
    reveal_strlit("}");
    let t1 = "{\"atom1\":"@;
    let l1 = int_list_text(u32_ints(b.atom1));
    let t2 = ",\"atom2\":"@;
    let l2 = int_list_text(u32_ints(b.atom2));
    lemma_int_list_plain(u32_ints(b.atom1));
    lemma_int_list_plain(u32_ints(b.atom2));
    lemma_plain_concat(t1, l1);
    lemma_plain_concat(t1 + l1, t2);
    lemma_plain_concat(t1 + l1 + t2, l2);
    lemma_plain_concat(t1 + l1 + t2 + l2, "}"@);
}

/// Each optional field of a valid molecule is plain.
pub proof fn lemma_fields_plain(m: MoleculeView)
    requires
        molecule_is_valid(m),
    ensures
        is_ascii_chars(charges_field(m.atom_charges)),
        is_ascii_chars(bonds_field(m.bonds)),
        is_ascii_chars(dative_bonds_field(m.dative_bonds)),
        is_ascii_chars(aromatic_bonds_field(m.aromatic_bonds)),
        is_ascii_chars(conformers_field(m.conformers)),
{
    reveal_strlit(",\"atom_charges\":");
    reveal_strlit(",\"bonds\":");
    reveal_strlit(",\"dative_bonds\":");
    reveal_strlit(",\"aromatic_bonds\":");
    reveal_strlit(",\"conformers\":");
    if let Some(charges) = m.atom_charges {
        lemma_int_list_plain(i8_ints(charges));
        lemma_plain_concat(",\"atom_charges\":"@, int_list_text(i8_ints(charges)));
    }
    if let Some(bonds) = m.bonds {
        lemma_bonds_text_plain(bonds);
        lemma_plain_concat(",\"bonds\":"@, bonds_text(bonds));
    }
    if let Some(bonds) = m.dative_bonds {
        lemma_bonds_text_plain(bonds);
        lemma_plain_concat(",\"dative_bonds\":"@, bonds_text(bonds));
    }
    if let Some(bonds) = m.aromatic_bonds {
        lemma_aromatic_bonds_text_plain(bonds);
        lemma_plain_concat(",\"aromatic_bonds\":"@, aromatic_bonds_text(bonds));
    }
    if let Some(conformers) = m.conformers {
        lemma_conformers_text_plain(conformers);
        lemma_plain_concat(",\"conformers\":"@, conformers_text(conformers));
    }
}

/// The document of a valid molecule is plain.
pub proof fn lemma_document_plain(m: MoleculeView)
    requires
        molecule_is_valid(m),
    ensures
        is_ascii_chars(molecule_text(m)),
{
    reveal_strlit("{\"atomic_numbers\":");
    reveal_strlit("}");
    let head = "{\"atomic_numbers\":"@;
    let list = int_list_text(u8_ints(m.atomic_numbers));
    let f1 = charges_field(m.atom_charges);
    let f2 = bonds_field(m.bonds);
    let f3 = dative_bonds_field(m.dative_bonds);
    let f4 = aromatic_bonds_field(m.aromatic_bonds);
    let f5 = conformers_field(m.conformers);
    lemma_int_list_plain(u8_ints(m.atomic_numbers));
    lemma_fields_plain(m);
    lemma_plain_concat(head, list);
    lemma_plain_concat(head + list, f1);
    lemma_plain_concat(head + list + f1, f2);
    lemma_plain_concat(head + list + f1 + f2, f3);
    lemma_plain_concat(head + list + f1 + f2 + f3, f4);
    lemma_plain_concat(head + list + f1 + f2 + f3 + f4, f5);
    lemma_plain_concat(head + list + f1 + f2 + f3 + f4 + f5, "}"@);
}

} // verus!
