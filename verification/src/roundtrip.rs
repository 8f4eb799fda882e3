//! Why a molecule's document gives the molecule back.

use vstd::prelude::*;
use crate::document::aromatic_bonds_field;
use crate::document::aromatic_bonds_text;
use crate::document::bonds_field;
use crate::document::bonds_text;
use crate::document::charges_field;
use crate::document::conformers_field;
use crate::document::conformers_text;
use crate::document::dative_bonds_field;
use crate::document::i8_ints;
use crate::document::int_list_text;
use crate::document::molecule_text;
use crate::document::u32_ints;
use crate::document::u8_ints;
use crate::lists::lemma_i8_list_parses;
use crate::lists::lemma_u32_list_parses;
use crate::lists::lemma_u8_list_parses;
use crate::molecule::AromaticBondsView;
use crate::molecule::BondsView;
use crate::molecule::MoleculeView;
use crate::molecule::molecule_is_valid;
use crate::parse::parse_aromatic_bonds_at;
use crate::parse::parse_aromatic_bonds_field;
use crate::parse::parse_bonds_at;
use crate::parse::parse_bonds_field;
use crate::parse::parse_charges_field;
use crate::parse::parse_conformers_field;
use crate::parse::parse_dative_bonds_field;
use crate::parse::parse_fields;
use crate::parse::parse_molecule;
use crate::positions::lemma_conformers_parse;
use crate::scan::char_at;
use crate::scan::holds_at;
use crate::scan::lemma_holds_char;
use crate::scan::lemma_holds_concat;

verus! {

/// Where the text of covalent or dative bonds stands, those bonds are read.
pub proof fn lemma_bonds_parse(s: Seq<char>, p: int, bonds: BondsView)
    requires
        holds_at(s, p, bonds_text(bonds)),
    ensures
        parse_bonds_at(s, p) == Some((bonds, p + bonds_text(bonds).len())),
{
    let t1 = "{\"atom1\":"@;
    let l1 = int_list_text(u32_ints(bonds.atom1));
    let t2 = ",\"atom2\":"@;
    let l2 = int_list_text(u32_ints(bonds.atom2));
    let t3 = ",\"order\":"@;
    let l3 = int_list_text(u8_ints(bonds.order));
    let end = "}"@;
    lemma_holds_concat(s, p, t1 + l1 + t2 + l2 + t3 + l3, end);
    lemma_holds_concat(s, p, t1 + l1 + t2 + l2 + t3, l3);
    lemma_holds_concat(s, p, t1 + l1 + t2 + l2, t3);
    lemma_holds_concat(s, p, t1 + l1 + t2, l2);
    lemma_holds_concat(s, p, t1 + l1, t2);
    lemma_holds_concat(s, p, t1, l1);
    let a = p + t1.len() + l1.len();
    let b = a + t2.len() + l2.len();
    lemma_u32_list_parses(s, p + t1.len(), bonds.atom1);
    lemma_u32_list_parses(s, a + t2.len(), bonds.atom2);
    lemma_u8_list_parses(s, b + t3.len(), bonds.order);
}

/// Where the text of aromatic bonds stands, those bonds are read.
pub proof fn lemma_aromatic_bonds_parse(s: Seq<char>, p: int, bonds: AromaticBondsView)
    requires
        holds_at(s, p, aromatic_bonds_text(bonds)),
    ensures
        parse_aromatic_bonds_at(s, p) == Some((bonds, p + aromatic_bonds_text(bonds).len())),
{
    let t1 = "{\"atom1\":"@;
    let l1 = int_list_text(u32_ints(bonds.atom1));
    let t2 = ",\"atom2\":"@;
    let l2 = int_list_text(u32_ints(bonds.atom2));
    let end = "}"@;
    lemma_holds_concat(s, p, t1 + l1 + t2 + l2, end);
    lemma_holds_concat(s, p, t1 + l1 + t2, l2);
    lemma_holds_concat(s, p, t1 + l1, t2);
    lemma_holds_concat(s, p, t1, l1);
    let a = p + t1.len() + l1.len();
    lemma_u32_list_parses(s, p + t1.len(), bonds.atom1);
    lemma_u32_list_parses(s, a + t2.len(), bonds.atom2);
}

/// The field that starts at `p`, told by its first characters: 1 for the
/// charges, 2 for the covalent bonds, 3 for the dative bonds, 4 for the
/// aromatic bonds, 5 for the conformers, 6 for the end of the document, and 0
/// for anything else.
pub open spec fn field_at(s: Seq<char>, p: int) -> int {
    if char_at(s, p, '}') {
        6
    } else if char_at(s, p, ',') && p + 3 < s.len() {
        if s[p + 2] == 'a' && s[p + 3] == 't' {
            1
        } else if s[p + 2] == 'b' {
            2
        } else if s[p + 2] == 'd' {
            3
        } else if s[p + 2] == 'a' && s[p + 3] == 'r' {
            4
        } else if s[p + 2] == 'c' {
            5
        } else {
            0
        }
    } else {
        0
    }
}

/// The text of the optional field `k` of a molecule.
pub open spec fn field_text(m: MoleculeView, k: int) -> Seq<char> {
    if k == 1 {
        charges_field(m.atom_charges)
    } else if k == 2 {
        bonds_field(m.bonds)
    } else if k == 3 {
        dative_bonds_field(m.dative_bonds)
    } else if k == 4 {
        aromatic_bonds_field(m.aromatic_bonds)
    } else {
        conformers_field(m.conformers)
    }
}

/// What follows the optional field `k` in a molecule's document, up to its
/// end; for `k == 0`, what follows the atomic numbers.
pub open spec fn tail(m: MoleculeView, k: int) -> Seq<char>
    decreases 5 - k,
{
    if k >= 5 {
        "}"@
    } else {
        field_text(m, k + 1) + tail(m, k + 1)
    }
}

/// A text that starts a field stands where that field starts.
pub proof fn lemma_field_at_holds(s: Seq<char>, p: int, t: Seq<char>)
    requires
        holds_at(s, p, t),
        field_at(t, 0) != 0,
    ensures
        field_at(s, p) == field_at(t, 0),
{
    lemma_holds_char(s, p, t, 0);
    if !char_at(t, 0, '}') {
        lemma_holds_char(s, p, t, 2);
        lemma_holds_char(s, p, t, 3);
    }
}

/// What a text starts, it starts with anything behind it.
pub proof fn lemma_field_of_prefix(a: Seq<char>, b: Seq<char>)
    requires
        field_at(a, 0) != 0,
    ensures
        field_at(a + b, 0) == field_at(a, 0),
{
    assert((a + b)[0] == a[0]);
    if !char_at(a, 0, '}') {
        assert((a + b)[2] == a[2]);
        assert((a + b)[3] == a[3]);
    }
}

/// Each field's name starts that field, and the closing brace ends the
/// document.
pub proof fn lemma_field_names()
    ensures
        field_at(",\"atom_charges\":"@, 0) == 1,
        field_at(",\"bonds\":"@, 0) == 2,
        field_at(",\"dative_bonds\":"@, 0) == 3,
        field_at(",\"aromatic_bonds\":"@, 0) == 4,
        field_at(",\"conformers\":"@, 0) == 5,
        field_at("}"@, 0) == 6,
{
    reveal_strlit(",\"atom_charges\":");
    reveal_strlit(",\"bonds\":");
    reveal_strlit(",\"dative_bonds\":");
    reveal_strlit(",\"aromatic_bonds\":");
    reveal_strlit(",\"conformers\":");
    reveal_strlit("}");
}

/// A field that is present starts with its name.
pub proof fn lemma_field_text_start(m: MoleculeView, k: int)
    requires
        1 <= k <= 5,
        field_text(m, k).len() > 0,
    ensures
        field_at(field_text(m, k), 0) == k,
{
    lemma_field_names();
    if k == 1 {
        lemma_field_of_prefix(",\"atom_charges\":"@, int_list_text(i8_ints(m.atom_charges->0)));
    } else if k == 2 {
        lemma_field_of_prefix(",\"bonds\":"@, bonds_text(m.bonds->0));
    } else if k == 3 {
        lemma_field_of_prefix(",\"dative_bonds\":"@, bonds_text(m.dative_bonds->0));
    } else if k == 4 {
        lemma_field_of_prefix(",\"aromatic_bonds\":"@, aromatic_bonds_text(m.aromatic_bonds->0));
    } else {
        lemma_field_of_prefix(",\"conformers\":"@, conformers_text(m.conformers->0));
    }
}

/// What follows the field `k` starts a later field, or ends the document.
pub proof fn lemma_tail_start(m: MoleculeView, k: int)
    requires
        0 <= k <= 5,
    ensures
        field_at(tail(m, k), 0) > k,
    decreases 5 - k,
{
    lemma_field_names();
    if k < 5 {
        let field = field_text(m, k + 1);
        if field.len() > 0 {
            lemma_field_text_start(m, k + 1);
            lemma_field_of_prefix(field, tail(m, k + 1));
        } else {
            lemma_tail_start(m, k + 1);
            assert(tail(m, k) =~= tail(m, k + 1));
        }
    }
}

/// Where what follows the field before `k` stands, and the field `k` is
/// absent, the name of the field `k` does not stand.
pub proof fn lemma_absent_field(s: Seq<char>, p: int, m: MoleculeView, k: int, name: Seq<char>)
    requires
        1 <= k <= 5,
        holds_at(s, p, tail(m, k - 1)),
        field_text(m, k).len() == 0,
        field_at(name, 0) == k,
    ensures
        !holds_at(s, p, name),
        holds_at(s, p, tail(m, k)),
{
    assert(tail(m, k - 1) =~= tail(m, k));
    lemma_tail_start(m, k);
    lemma_field_at_holds(s, p, tail(m, k));
    if holds_at(s, p, name) {
        lemma_field_at_holds(s, p, name);
    }
}

/// Where what follows the atomic numbers stands, the field of the charges is
/// read as the molecule has it.
pub proof fn lemma_charges_field_parses(s: Seq<char>, p: int, m: MoleculeView)
    requires
        holds_at(s, p, tail(m, 0)),
    ensures
        parse_charges_field(s, p) == Some((m.atom_charges, p + field_text(m, 1).len())),
        holds_at(s, p + field_text(m, 1).len(), tail(m, 1)),
{
    let name = ",\"atom_charges\":"@;
    lemma_field_names();
    match m.atom_charges {
        Some(charges) => {
            let list = int_list_text(i8_ints(charges));
            lemma_holds_concat(s, p, name + list, tail(m, 1));
            lemma_holds_concat(s, p, name, list);
            lemma_i8_list_parses(s, p + name.len(), charges);
        },
        None => {
            lemma_absent_field(s, p, m, 1, name);
        },
    }
}

/// Where what follows the field of the charges stands, the field of the
/// covalent bonds is read as the molecule has it.
pub proof fn lemma_bonds_field_parses(s: Seq<char>, p: int, m: MoleculeView)
    requires
        holds_at(s, p, tail(m, 1)),
    ensures
        parse_bonds_field(s, p) == Some((m.bonds, p + field_text(m, 2).len())),
        holds_at(s, p + field_text(m, 2).len(), tail(m, 2)),
{
    let name = ",\"bonds\":"@;
    lemma_field_names();
    match m.bonds {
        Some(bonds) => {
            let value = bonds_text(bonds);
            lemma_holds_concat(s, p, name + value, tail(m, 2));
            lemma_holds_concat(s, p, name, value);
            lemma_bonds_parse(s, p + name.len(), bonds);
        },
        None => {
            lemma_absent_field(s, p, m, 2, name);
        },
    }
}

/// Where what follows the field of the covalent bonds stands, the field of
/// the dative bonds is read as the molecule has it.
pub proof fn lemma_dative_bonds_field_parses(s: Seq<char>, p: int, m: MoleculeView)
    requires
        holds_at(s, p, tail(m, 2)),
    ensures
        parse_dative_bonds_field(s, p) == Some((m.dative_bonds, p + field_text(m, 3).len())),
        holds_at(s, p + field_text(m, 3).len(), tail(m, 3)),
{
    let name = ",\"dative_bonds\":"@;
    lemma_field_names();
    match m.dative_bonds {
        Some(bonds) => {
            let value = bonds_text(bonds);
            lemma_holds_concat(s, p, name + value, tail(m, 3));
            lemma_holds_concat(s, p, name, value);
            lemma_bonds_parse(s, p + name.len(), bonds);
        },
        None => {
            lemma_absent_field(s, p, m, 3, name);
        },
    }
}

/// Where what follows the field of the dative bonds stands, the field of the
/// aromatic bonds is read as the molecule has it.
pub proof fn lemma_aromatic_bonds_field_parses(s: Seq<char>, p: int, m: MoleculeView)
    requires
        holds_at(s, p, tail(m, 3)),
    ensures
        parse_aromatic_bonds_field(s, p) == Some((m.aromatic_bonds, p + field_text(m, 4).len())),
        holds_at(s, p + field_text(m, 4).len(), tail(m, 4)),
{
    let name = ",\"aromatic_bonds\":"@;
    lemma_field_names();
    match m.aromatic_bonds {
        Some(bonds) => {
            let value = aromatic_bonds_text(bonds);
            lemma_holds_concat(s, p, name + value, tail(m, 4));
            lemma_holds_concat(s, p, name, value);
            lemma_aromatic_bonds_parse(s, p + name.len(), bonds);
        },
        None => {
            lemma_absent_field(s, p, m, 4, name);
        },
    }
}

/// Where what follows the field of the aromatic bonds stands, the field of
/// the conformers is read as the molecule has it.
pub proof fn lemma_conformers_field_parses(s: Seq<char>, p: int, m: MoleculeView)
    requires
        molecule_is_valid(m),
        holds_at(s, p, tail(m, 4)),
    ensures
        parse_conformers_field(s, p) == Some((m.conformers, p + field_text(m, 5).len())),
        holds_at(s, p + field_text(m, 5).len(), tail(m, 5)),
{
    let name = ",\"conformers\":"@;
    lemma_field_names();
    match m.conformers {
        Some(conformers) => {
            let value = conformers_text(conformers);
            lemma_holds_concat(s, p, name + value, tail(m, 5));
            lemma_holds_concat(s, p, name, value);
            lemma_conformers_parse(s, p + name.len(), conformers);
        },
        None => {
            lemma_absent_field(s, p, m, 5, name);
        },
    }
}

/// A molecule's document is the atomic numbers and what follows them.
pub proof fn lemma_molecule_text_parts(m: MoleculeView)
    ensures
        molecule_text(m) == "{\"atomic_numbers\":"@ + int_list_text(u8_ints(m.atomic_numbers))
            + tail(m, 0),
        tail(m, 0).len() == field_text(m, 1).len() + field_text(m, 2).len() + field_text(
            m,
            3,
        ).len() + field_text(m, 4).len() + field_text(m, 5).len() + "}"@.len(),
{
    let t5 = tail(m, 5);
    let t4 = tail(m, 4);
    let t3 = tail(m, 3);
    let t2 = tail(m, 2);
    let t1 = tail(m, 1);
    let t0 = tail(m, 0);
    assert(t5 == "}"@);
    assert(t4 == field_text(m, 5) + t5);
    assert(t3 == field_text(m, 4) + t4);
    assert(t2 == field_text(m, 3) + t3);
    assert(t1 == field_text(m, 2) + t2);
    assert(t0 == field_text(m, 1) + t1);
    assert(molecule_text(m) =~= "{\"atomic_numbers\":"@ + int_list_text(u8_ints(m.atomic_numbers))
        + t0);
}

/// Where what follows the atomic numbers stands, up to the end of the text,
/// the optional fields are read as the molecule has them.
pub proof fn lemma_fields_parse(s: Seq<char>, i: int, m: MoleculeView)
    requires
        molecule_is_valid(m),
        holds_at(s, i, tail(m, 0)),
        i + tail(m, 0).len() == s.len(),
    ensures
        parse_fields(s, i, m.atomic_numbers) == Some(m),
{
    lemma_molecule_text_parts(m);
    lemma_charges_field_parses(s, i, m);
    let a: int = i + field_text(m, 1).len();
    lemma_bonds_field_parses(s, a, m);
    let b: int = a + field_text(m, 2).len();
    lemma_dative_bonds_field_parses(s, b, m);
    let c: int = b + field_text(m, 3).len();
    lemma_aromatic_bonds_field_parses(s, c, m);
    let d: int = c + field_text(m, 4).len();
    lemma_conformers_field_parses(s, d, m);
}

/// A text stands in itself, at its start.
pub proof fn lemma_holds_whole(s: Seq<char>)
    ensures
        holds_at(s, 0, s),
{
    assert(s.subrange(0, s.len() as int) =~= s);
}

/// A text that is made of a molecule's atomic numbers and of what follows
/// them gives the molecule back.
pub proof fn lemma_parts_parse(s: Seq<char>, m: MoleculeView)
    requires
        molecule_is_valid(m),
        s == "{\"atomic_numbers\":"@ + int_list_text(u8_ints(m.atomic_numbers)) + tail(m, 0),
    ensures
        parse_molecule(s) == Some(m),
{
    let head = "{\"atomic_numbers\":"@;
    let list = int_list_text(u8_ints(m.atomic_numbers));
    lemma_holds_whole(s);
    lemma_holds_concat(s, 0, head + list, tail(m, 0));
    lemma_holds_concat(s, 0, head, list);
    lemma_u8_list_parses(s, head.len() as int, m.atomic_numbers);
    lemma_fields_parse(s, (head.len() + list.len()) as int, m);
}

/// The document of a molecule gives the molecule back: read from its start to
/// its end, it is the molecule with every field as it was, the absent ones
/// absent.
pub proof fn lemma_document_parses(m: MoleculeView)
    requires
        molecule_is_valid(m),
    ensures
        parse_molecule(molecule_text(m)) == Some(m),
{
    lemma_molecule_text_parts(m);
    lemma_parts_parse(molecule_text(m), m);
}

/// Two molecules with one document are one molecule.
pub proof fn lemma_document_tells_molecule(a: MoleculeView, b: MoleculeView)
    requires
        molecule_is_valid(a),
        molecule_is_valid(b),
        molecule_text(a) == molecule_text(b),
    ensures
        a == b,
{
    lemma_document_parses(a);
    lemma_document_parses(b);
}

} // verus!
