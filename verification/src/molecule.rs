//! The record of one chemical structure.

use vstd::prelude::*;
use crate::coordinate::Coordinate;
use crate::coordinate::is_coordinate_text;

verus! {

/// Covalent or dative bonds, as three parallel sequences: the two atoms of
/// each bond and its order.
#[derive(Debug, PartialEq, Eq)]
pub struct Bonds {
    pub atom1: Vec<u32>,
    pub atom2: Vec<u32>,
    pub order: Vec<u8>,
}

/// Aromatic bonds, as two parallel sequences: the two atoms of each bond.
#[derive(Debug, PartialEq, Eq)]
pub struct AromaticBonds {
    pub atom1: Vec<u32>,
    pub atom2: Vec<u32>,
}

/// A molecule: its atoms and, where known, their charges, bonds and positions.
#[derive(Debug, PartialEq, Eq)]
pub struct Molecule {
    pub atomic_numbers: Vec<u8>,
    pub atom_charges: Option<Vec<i8>>,
    pub bonds: Option<Bonds>,
    pub dative_bonds: Option<Bonds>,
    pub aromatic_bonds: Option<AromaticBonds>,
    pub conformers: Option<Vec<Vec<[Coordinate; 3]>>>,
}

/// What a `Bonds` value holds.
pub struct BondsView {
    pub atom1: Seq<u32>,
    pub atom2: Seq<u32>,
    pub order: Seq<u8>,
}

/// What an `AromaticBonds` value holds.
pub struct AromaticBondsView {
    pub atom1: Seq<u32>,
    pub atom2: Seq<u32>,
}

/// The position of one atom: the texts of its three coordinates.
pub struct PointView {
    pub x: Seq<char>,
    pub y: Seq<char>,
    pub z: Seq<char>,
}

/// What a `Molecule` holds.
pub struct MoleculeView {
    pub atomic_numbers: Seq<u8>,
    pub atom_charges: Option<Seq<i8>>,
    pub bonds: Option<BondsView>,
    pub dative_bonds: Option<BondsView>,
    pub aromatic_bonds: Option<AromaticBondsView>,
    pub conformers: Option<Seq<Seq<PointView>>>,
}

impl View for Bonds {
    type V = BondsView;

    open spec fn view(&self) -> BondsView {
        BondsView { atom1: self.atom1@, atom2: self.atom2@, order: self.order@ }
    }
}

impl View for AromaticBonds {
    type V = AromaticBondsView;

    open spec fn view(&self) -> AromaticBondsView {
        AromaticBondsView { atom1: self.atom1@, atom2: self.atom2@ }
    }
}

/// The position that three coordinates give.
pub open spec fn point_view(p: [Coordinate; 3]) -> PointView {
    PointView { x: p@[0]@, y: p@[1]@, z: p@[2]@ }
}

/// The positions of one conformer.
pub open spec fn conformer_view(c: Vec<[Coordinate; 3]>) -> Seq<PointView> {
    Seq::new(c@.len(), |i: int| point_view(c@[i]))
}

/// The positions of each conformer.
pub open spec fn conformers_view(cs: Vec<Vec<[Coordinate; 3]>>) -> Seq<Seq<PointView>> {
    Seq::new(cs@.len(), |i: int| conformer_view(cs@[i]))
}

/// What an optional `Bonds` value holds.
pub open spec fn bonds_view(b: Option<Bonds>) -> Option<BondsView> {
    match b {
        Some(b) => Some(b@),
        None => None,
    }
}

impl View for Molecule {
    type V = MoleculeView;

    open spec fn view(&self) -> MoleculeView {
        MoleculeView {
            atomic_numbers: self.atomic_numbers@,
            atom_charges: match self.atom_charges {
                Some(c) => Some(c@),
                None => None,
            },
            bonds: bonds_view(self.bonds),
            dative_bonds: bonds_view(self.dative_bonds),
            aromatic_bonds: match self.aromatic_bonds {
                Some(b) => Some(b@),
                None => None,
            },
            conformers: match self.conformers {
                Some(cs) => Some(conformers_view(cs)),
                None => None,
            },
        }
    }
}

/// Whether the three coordinates of a position are number literals or `null`.
pub open spec fn point_is_valid(p: PointView) -> bool {
    is_coordinate_text(p.x) && is_coordinate_text(p.y) && is_coordinate_text(p.z)
}

/// Whether every position of a conformer is valid.
pub open spec fn conformer_is_valid(points: Seq<PointView>) -> bool {
    forall|i: int| 0 <= i < points.len() ==> point_is_valid(#[trigger] points[i])
}

/// Whether every position of every conformer is valid.
pub open spec fn conformers_are_valid(conformers: Seq<Seq<PointView>>) -> bool {
    forall|i: int| 0 <= i < conformers.len() ==> conformer_is_valid(#[trigger] conformers[i])
}

/// Whether every coordinate of a molecule is a number literal or `null`.
pub open spec fn molecule_is_valid(m: MoleculeView) -> bool {
    match m.conformers {
        Some(conformers) => conformers_are_valid(conformers),
        None => true,
    }
}

/// Whether the three sequences of covalent or dative bonds have one length.
pub open spec fn bonds_are_consistent(b: BondsView) -> bool {
    b.atom1.len() == b.atom2.len() && b.atom2.len() == b.order.len()
}

/// Whether the two sequences of aromatic bonds have one length.
pub open spec fn aromatic_bonds_are_consistent(b: AromaticBondsView) -> bool {
    b.atom1.len() == b.atom2.len()
}

/// Whether each conformer holds as many positions as `atoms`.
pub open spec fn conformers_fit(conformers: Seq<Seq<PointView>>, atoms: nat) -> bool {
    forall|i: int| 0 <= i < conformers.len() ==> (#[trigger] conformers[i]).len() == atoms
}

/// Whether the parts of a molecule agree in length: there is one charge and,
/// in each conformer, one position for each atom, and the sequences of each
/// kind of bonds have one length. A molecule is stored whether or not they
/// agree.
pub open spec fn molecule_is_consistent(m: MoleculeView) -> bool {
    &&& m.atom_charges matches Some(charges) ==> charges.len() == m.atomic_numbers.len()
    &&& m.bonds matches Some(bonds) ==> bonds_are_consistent(bonds)
    &&& m.dative_bonds matches Some(bonds) ==> bonds_are_consistent(bonds)
    &&& m.aromatic_bonds matches Some(bonds) ==> aromatic_bonds_are_consistent(bonds)
    &&& m.conformers matches Some(conformers) ==> conformers_fit(
        conformers,
        m.atomic_numbers.len(),
    )
}

impl Bonds {
    /// Whether the three sequences have one length.
    pub fn is_consistent(&self) -> (r: bool)
        ensures
            r == bonds_are_consistent(self@),
    {
        self.atom1.len() == self.atom2.len() && self.atom2.len() == self.order.len()
    }
}

impl AromaticBonds {
    /// Whether the two sequences have one length.
    pub fn is_consistent(&self) -> (r: bool)
        ensures
            r == aromatic_bonds_are_consistent(self@),
    {
        self.atom1.len() == self.atom2.len()
    }
}

/// Whether each conformer holds as many positions as `atoms`.
fn conformers_have(conformers: &Vec<Vec<[Coordinate; 3]>>, atoms: usize) -> (r: bool)
    ensures
        r == conformers_fit(conformers_view(*conformers), atoms as nat),
{
    let ghost views = conformers_view(*conformers);
    let mut i: usize = 0;
    while i < conformers.len()
        invariant
            i <= conformers.len(),
            views == conformers_view(*conformers),
            forall|j: int| 0 <= j < i ==> (#[trigger] views[j]).len() == atoms,
        decreases conformers.len() - i,
    {
        if conformers[i].len() != atoms {
            assert(views[i as int].len() != atoms);
            return false;
        }
        i = i + 1;
    }
    true
}

impl Molecule {
    /// Whether the parts of the molecule agree in length.
    pub fn is_consistent(&self) -> (r: bool)
        ensures
            r == molecule_is_consistent(self@),
    {
        let atoms = self.atomic_numbers.len();
        let charges = match &self.atom_charges {
            Some(charges) => charges.len() == atoms,
            None => true,
        };
        let bonds = match &self.bonds {
            Some(bonds) => bonds.is_consistent(),
            None => true,
        };
        let dative_bonds = match &self.dative_bonds {
            Some(bonds) => bonds.is_consistent(),
            None => true,
        };
        let aromatic_bonds = match &self.aromatic_bonds {
            Some(bonds) => bonds.is_consistent(),
            None => true,
        };
        let conformers = match &self.conformers {
            Some(conformers) => conformers_have(conformers, atoms),
            None => true,
        };
        charges && bonds && dative_bonds && aromatic_bonds && conformers
    }
}

} // verus!
