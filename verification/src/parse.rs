//! Reading a molecule back from its document.

use vstd::prelude::*;
use vstd::string::StringExecFns;
use crate::coordinate::Coordinate;
use crate::document::molecule_text;
use crate::lists::parse_i8_list;
use crate::lists::parse_u32_list;
use crate::lists::parse_u8_list;
use crate::lists::read_i8_list;
use crate::lists::read_u32_list;
use crate::lists::read_u8_list;
use crate::molecule::AromaticBonds;
use crate::molecule::AromaticBondsView;
use crate::molecule::Bonds;
use crate::molecule::BondsView;
use crate::molecule::Molecule;
use crate::molecule::MoleculeView;
use crate::molecule::PointView;
use crate::molecule::bonds_view;
use crate::molecule::conformers_view;
use crate::molecule::molecule_is_valid;
use crate::plain::lemma_document_plain;
use crate::roundtrip::lemma_document_parses;
use crate::positions::parse_conformers_at;
use crate::positions::read_conformers;
use crate::scan::holds_at;
use crate::scan::length;
use crate::scan::read_text;

verus! {

/// The covalent or dative bonds that stand at `i`, and the position behind
/// them.
pub open spec fn parse_bonds_at(s: Seq<char>, i: int) -> Option<(BondsView, int)> {
    if !holds_at(s, i, "{\"atom1\":"@) {
        None
    } else {
        match parse_u32_list(s, i + "{\"atom1\":"@.len()) {
            None => None,
            Some((atom1, a)) => if !holds_at(s, a, ",\"atom2\":"@) {
                None
            } else {
                match parse_u32_list(s, a + ",\"atom2\":"@.len()) {
                    None => None,
                    Some((atom2, b)) => if !holds_at(s, b, ",\"order\":"@) {
                        None
                    } else {
                        match parse_u8_list(s, b + ",\"order\":"@.len()) {
                            None => None,
                            Some((order, c)) => if !holds_at(s, c, "}"@) {
                                None
                            } else {
                                Some((BondsView { atom1, atom2, order }, c + "}"@.len()))
                            },
                        }
                    },
                }
            },
        }
    }
}

/// The aromatic bonds that stand at `i`, and the position behind them.
pub open spec fn parse_aromatic_bonds_at(s: Seq<char>, i: int) -> Option<(AromaticBondsView, int)> {
    if !holds_at(s, i, "{\"atom1\":"@) {
        None
    } else {
        match parse_u32_list(s, i + "{\"atom1\":"@.len()) {
            None => None,
            Some((atom1, a)) => if !holds_at(s, a, ",\"atom2\":"@) {
                None
            } else {
                match parse_u32_list(s, a + ",\"atom2\":"@.len()) {
                    None => None,
                    Some((atom2, b)) => if !holds_at(s, b, "}"@) {
                        None
                    } else {
                        Some((AromaticBondsView { atom1, atom2 }, b + "}"@.len()))
                    },
                }
            },
        }
    }
}

/// The field of the atoms' charges, if it stands at `i`, and the position
/// behind it.
pub open spec fn parse_charges_field(s: Seq<char>, i: int) -> Option<(Option<Seq<i8>>, int)> {
    if holds_at(s, i, ",\"atom_charges\":"@) {
        match parse_i8_list(s, i + ",\"atom_charges\":"@.len()) {
            Some((charges, j)) => Some((Some(charges), j)),
            None => None,
        }
    } else {
        Some((None, i))
    }
}

/// The field of the covalent bonds, if it stands at `i`, and the position
/// behind it.
pub open spec fn parse_bonds_field(s: Seq<char>, i: int) -> Option<(Option<BondsView>, int)> {
    if holds_at(s, i, ",\"bonds\":"@) {
        match parse_bonds_at(s, i + ",\"bonds\":"@.len()) {
            Some((bonds, j)) => Some((Some(bonds), j)),
            None => None,
        }
    } else {
        Some((None, i))
    }
}

/// The field of the dative bonds, if it stands at `i`, and the position
/// behind it.
pub open spec fn parse_dative_bonds_field(s: Seq<char>, i: int) -> Option<
    (Option<BondsView>, int),
> {
    if holds_at(s, i, ",\"dative_bonds\":"@) {
        match parse_bonds_at(s, i + ",\"dative_bonds\":"@.len()) {
            Some((bonds, j)) => Some((Some(bonds), j)),
            None => None,
        }
    } else {
        Some((None, i))
    }
}

/// The field of the aromatic bonds, if it stands at `i`, and the position
/// behind it.
pub open spec fn parse_aromatic_bonds_field(s: Seq<char>, i: int) -> Option<
    (Option<AromaticBondsView>, int),
> {
    if holds_at(s, i, ",\"aromatic_bonds\":"@) {
        match parse_aromatic_bonds_at(s, i + ",\"aromatic_bonds\":"@.len()) {
            Some((bonds, j)) => Some((Some(bonds), j)),
            None => None,
        }
    } else {
        Some((None, i))
    }
}

/// The field of the conformers, if it stands at `i`, and the position behind
/// it.
pub open spec fn parse_conformers_field(s: Seq<char>, i: int) -> Option<
    (Option<Seq<Seq<PointView>>>, int),
> {
    if holds_at(s, i, ",\"conformers\":"@) {
        match parse_conformers_at(s, i + ",\"conformers\":"@.len()) {
            Some((conformers, j)) => Some((Some(conformers), j)),
            None => None,
        }
    } else {
        Some((None, i))
    }
}

/// The optional fields that stand at `i`, in their order, up to the end of
/// the document.
pub open spec fn parse_fields(s: Seq<char>, i: int, atomic_numbers: Seq<u8>) -> Option<
    MoleculeView,
> {
    match parse_charges_field(s, i) {
        None => None,
        Some((atom_charges, a)) => match parse_bonds_field(s, a) {
            None => None,
            Some((bonds, b)) => match parse_dative_bonds_field(s, b) {
                None => None,
                Some((dative_bonds, c)) => match parse_aromatic_bonds_field(s, c) {
                    None => None,
                    Some((aromatic_bonds, d)) => match parse_conformers_field(s, d) {
                        None => None,
                        Some((conformers, e)) => if holds_at(s, e, "}"@) && e + "}"@.len()
                            == s.len() {
                            Some(
                                MoleculeView {
                                    atomic_numbers,
                                    atom_charges,
                                    bonds,
                                    dative_bonds,
                                    aromatic_bonds,
                                    conformers,
                                },
                            )
                        } else {
                            None
                        },
                    },
                },
            },
        },
    }
}

/// The molecule that a text stands for, read from its start to its end.
pub open spec fn parse_molecule(s: Seq<char>) -> Option<MoleculeView> {
    if !holds_at(s, 0, "{\"atomic_numbers\":"@) {
        None
    } else {
        match parse_u8_list(s, "{\"atomic_numbers\":"@.len() as int) {
            None => None,
            Some((atomic_numbers, i)) => parse_fields(s, i, atomic_numbers),
        }
    }
}

/// Reads the covalent or dative bonds at `i`.
pub(crate) fn read_bonds(text: &str, i: usize) -> (r: Option<(Bonds, usize)>)
    requires
        text.is_ascii(),
    ensures
        match r {
            Some((bonds, j)) => parse_bonds_at(text@, i as int) == Some((bonds@, j as int)) && i
                <= j <= text@.len(),
            None => parse_bonds_at(text@, i as int) is None,
        },
{
    let p = match read_text(text, i, "{\"atom1\":") {
        Some(p) => p,
        None => {
            return None;
        },
    };
    let (atom1, a) = match read_u32_list(text, p) {
        Some(found) => found,
        None => {
            return None;
        },
    };
    let p = match read_text(text, a, ",\"atom2\":") {
        Some(p) => p,
        None => {
            return None;
        },
    };
    let (atom2, b) = match read_u32_list(text, p) {
        Some(found) => found,
        None => {
            return None;
        },
    };
    let p = match read_text(text, b, ",\"order\":") {
        Some(p) => p,
        None => {
            return None;
        },
    };
    let (order, c) = match read_u8_list(text, p) {
        Some(found) => found,
        None => {
            return None;
        },
    };
    match read_text(text, c, "}") {
        Some(end) => Some((Bonds { atom1, atom2, order }, end)),
        None => None,
    }
}

/// Reads the aromatic bonds at `i`.
pub(crate) fn read_aromatic_bonds(text: &str, i: usize) -> (r: Option<(AromaticBonds, usize)>)
    requires
        text.is_ascii(),
    ensures
        match r {
            Some((bonds, j)) => parse_aromatic_bonds_at(text@, i as int) == Some(
                (bonds@, j as int),
            ) && i <= j <= text@.len(),
            None => parse_aromatic_bonds_at(text@, i as int) is None,
        },
{
    let p = match read_text(text, i, "{\"atom1\":") {
        Some(p) => p,
        None => {
            return None;
        },
    };
    let (atom1, a) = match read_u32_list(text, p) {
        Some(found) => found,
        None => {
            return None;
        },
    };
    let p = match read_text(text, a, ",\"atom2\":") {
        Some(p) => p,
        None => {
            return None;
        },
    };
    let (atom2, b) = match read_u32_list(text, p) {
        Some(found) => found,
        None => {
            return None;
        },
    };
    match read_text(text, b, "}") {
        Some(end) => Some((AromaticBonds { atom1, atom2 }, end)),
        None => None,
    }
}

/// What an optional list of charges holds.
pub open spec fn charges_view(charges: Option<Vec<i8>>) -> Option<Seq<i8>> {
    match charges {
        Some(c) => Some(c@),
        None => None,
    }
}

/// What an optional `AromaticBonds` value holds.
pub open spec fn aromatic_bonds_view(bonds: Option<AromaticBonds>) -> Option<AromaticBondsView> {
    match bonds {
        Some(b) => Some(b@),
        None => None,
    }
}

/// What an optional list of conformers holds.
pub open spec fn optional_conformers_view(conformers: Option<Vec<Vec<[Coordinate; 3]>>>) -> Option<
    Seq<Seq<PointView>>,
> {
    match conformers {
        Some(c) => Some(conformers_view(c)),
        None => None,
    }
}

/// Reads the field of the atoms' charges, if it stands at `i`.
fn read_charges_field(text: &str, i: usize) -> (r: Option<(Option<Vec<i8>>, usize)>)
    requires
        text.is_ascii(),
        i <= text@.len(),
    ensures
        match r {
            Some((charges, j)) => parse_charges_field(text@, i as int) == Some(
                (charges_view(charges), j as int),
            ) && i <= j <= text@.len(),
            None => parse_charges_field(text@, i as int) is None,
        },
{
    match read_text(text, i, ",\"atom_charges\":") {
        Some(p) => match read_i8_list(text, p) {
            Some((charges, j)) => Some((Some(charges), j)),
            None => None,
        },
        None => Some((None, i)),
    }
}

/// Reads the field of the covalent bonds, if it stands at `i`.
fn read_bonds_field(text: &str, i: usize) -> (r: Option<(Option<Bonds>, usize)>)
    requires
        text.is_ascii(),
        i <= text@.len(),
    ensures
        match r {
            Some((bonds, j)) => parse_bonds_field(text@, i as int) == Some(
                (bonds_view(bonds), j as int),
            ) && i <= j <= text@.len(),
            None => parse_bonds_field(text@, i as int) is None,
        },
{
    match read_text(text, i, ",\"bonds\":") {
        Some(p) => match read_bonds(text, p) {
            Some((bonds, j)) => Some((Some(bonds), j)),
            None => None,
        },
        None => Some((None, i)),
    }
}

/// Reads the field of the dative bonds, if it stands at `i`.
fn read_dative_bonds_field(text: &str, i: usize) -> (r: Option<(Option<Bonds>, usize)>)
    requires
        text.is_ascii(),
        i <= text@.len(),
    ensures
        match r {
            Some((bonds, j)) => parse_dative_bonds_field(text@, i as int) == Some(
                (bonds_view(bonds), j as int),
            ) && i <= j <= text@.len(),
            None => parse_dative_bonds_field(text@, i as int) is None,
        },
{
    match read_text(text, i, ",\"dative_bonds\":") {
        Some(p) => match read_bonds(text, p) {
            Some((bonds, j)) => Some((Some(bonds), j)),
            None => None,
        },
        None => Some((None, i)),
    }
}

/// Reads the field of the aromatic bonds, if it stands at `i`.
fn read_aromatic_bonds_field(text: &str, i: usize) -> (r: Option<(Option<AromaticBonds>, usize)>)
    requires
        text.is_ascii(),
        i <= text@.len(),
    ensures
        match r {
            Some((bonds, j)) => parse_aromatic_bonds_field(text@, i as int) == Some(
                (aromatic_bonds_view(bonds), j as int),
            ) && i <= j <= text@.len(),
            None => parse_aromatic_bonds_field(text@, i as int) is None,
        },
{
    match read_text(text, i, ",\"aromatic_bonds\":") {
        Some(p) => match read_aromatic_bonds(text, p) {
            Some((bonds, j)) => Some((Some(bonds), j)),
            None => None,
        },
        None => Some((None, i)),
    }
}

/// Reads the field of the conformers, if it stands at `i`.
fn read_conformers_field(text: &str, i: usize) -> (r: Option<
    (Option<Vec<Vec<[Coordinate; 3]>>>, usize),
>)
    requires
        text.is_ascii(),
        i <= text@.len(),
    ensures
        match r {
            Some((conformers, j)) => parse_conformers_field(text@, i as int) == Some(
                (optional_conformers_view(conformers), j as int),
            ) && i <= j <= text@.len(),
            None => parse_conformers_field(text@, i as int) is None,
        },
{
    match read_text(text, i, ",\"conformers\":") {
        Some(p) => match read_conformers(text, p) {
            Some((conformers, j)) => Some((Some(conformers), j)),
            None => None,
        },
        None => Some((None, i)),
    }
}

/// Reads a molecule from the start of a text to its end.
pub(crate) fn read_molecule(text: &str) -> (r: Option<Molecule>)
    requires
        text.is_ascii(),
    ensures
        match r {
            Some(molecule) => parse_molecule(text@) == Some(molecule@),
            None => parse_molecule(text@) is None,
        },
{
    let len = length(text);
    let p = match read_text(text, 0, "{\"atomic_numbers\":") {
        Some(p) => p,
        None => {
            return None;
        },
    };
    let (atomic_numbers, i) = match read_u8_list(text, p) {
        Some(found) => found,
        None => {
            return None;
        },
    };
    let (atom_charges, a) = match read_charges_field(text, i) {
        Some(found) => found,
        None => {
            return None;
        },
    };
    let (bonds, b) = match read_bonds_field(text, a) {
        Some(found) => found,
        None => {
            return None;
        },
    };
    let (dative_bonds, c) = match read_dative_bonds_field(text, b) {
        Some(found) => found,
        None => {
            return None;
        },
    };
    let (aromatic_bonds, d) = match read_aromatic_bonds_field(text, c) {
        Some(found) => found,
        None => {
            return None;
        },
    };
    let (conformers, e) = match read_conformers_field(text, d) {
        Some(found) => found,
        None => {
            return None;
        },
    };
    match read_text(text, e, "}") {
        Some(end) => if end == len {
            Some(
                Molecule { atomic_numbers, atom_charges, bonds, dative_bonds, aromatic_bonds, conformers },
            )
        } else {
            None
        },
        None => None,
    }
}

impl Molecule {
    /// Reads a molecule from its document.
    ///
    /// A text is read if and only if it is the document of a molecule, and
    /// then as that molecule: what `to_json` writes, `from_json` gives back.
    /// A text that differs from every document, be it by a space, by the order
    /// of its fields or by a field that holds `null`, is not read.
    pub fn from_json(text: &str) -> (r: Option<Molecule>)
        ensures
            r matches Some(m) ==> molecule_text(m@) == text@ && molecule_is_valid(m@),
            forall|v: MoleculeView|
                molecule_is_valid(v) && #[trigger] molecule_text(v) == text@ ==> (r matches Some(m)
                    && m@ == v),
    {
        if !text.is_ascii() {
            proof {
                assert forall|v: MoleculeView|
                    molecule_is_valid(v) implies #[trigger] molecule_text(v) != text@ by {
                    lemma_document_plain(v);
                }
            }
            return None;
        }
        proof {
            assert forall|v: MoleculeView|
                molecule_is_valid(v) && #[trigger] molecule_text(v) == text@ implies parse_molecule(
                text@,
            ) == Some(v) by {
                lemma_document_parses(v);
            }
        }
        match read_molecule(text) {
            Some(molecule) => {
                let written = molecule.to_json();
                if written == String::from_str(text) {
                    Some(molecule)
                } else {
                    None
                }
            },
            None => None,
        }
    }
}

} // verus!
