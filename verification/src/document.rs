//! The document that stands for a molecule in a stored row.
//!
//! A document is written without any space. Its fields come in a fixed order,
//! and a field whose value is absent is left out altogether.

use vstd::prelude::*;
use vstd::string::StringExecFns;
use crate::coordinate::Coordinate;
use crate::decimal::int_text;
use crate::decimal::push_int;
use crate::molecule::AromaticBonds;
use crate::molecule::AromaticBondsView;
use crate::molecule::Bonds;
use crate::molecule::BondsView;
use crate::molecule::Molecule;
use crate::molecule::MoleculeView;
use crate::molecule::PointView;
use crate::molecule::bonds_view;
use crate::molecule::conformer_is_valid;
use crate::molecule::conformer_view;
use crate::molecule::conformers_are_valid;
use crate::molecule::molecule_is_valid;
use crate::molecule::point_is_valid;
use crate::molecule::conformers_view;
use crate::molecule::point_view;

verus! {

/// What stands before the item at `i` of a list: a comma, but for the first.
pub open spec fn separator(i: int) -> Seq<char> {
    if i == 0 {
        Seq::empty()
    } else {
        seq![',']
    }
}

/// The items of a list of integers from `i` on, with the bracket that closes
/// the list.
pub open spec fn int_items(s: Seq<int>, i: int) -> Seq<char>
    decreases s.len() - i,
{
    if i >= s.len() {
        seq![']']
    } else {
        separator(i) + int_text(s[i]) + int_items(s, i + 1)
    }
}

/// A list of integers: the items in decimal between square brackets, with
/// commas between them.
pub open spec fn int_list_text(s: Seq<int>) -> Seq<char> {
    seq!['['] + int_items(s, 0)
}

/// The values of a sequence of `u8`.
pub open spec fn u8_ints(s: Seq<u8>) -> Seq<int> {
    Seq::new(s.len(), |i: int| s[i] as int)
}

/// The values of a sequence of `i8`.
pub open spec fn i8_ints(s: Seq<i8>) -> Seq<int> {
    Seq::new(s.len(), |i: int| s[i] as int)
}

/// The values of a sequence of `u32`.
pub open spec fn u32_ints(s: Seq<u32>) -> Seq<int> {
    Seq::new(s.len(), |i: int| s[i] as int)
}

/// The position of one atom: its three coordinates as a list.
pub open spec fn point_text(p: PointView) -> Seq<char> {
    seq!['['] + p.x + seq![','] + p.y + seq![','] + p.z + seq![']']
}

/// The positions of a conformer from `i` on, with the bracket that closes the
/// list.
pub open spec fn point_items(points: Seq<PointView>, i: int) -> Seq<char>
    decreases points.len() - i,
{
    if i >= points.len() {
        seq![']']
    } else {
        separator(i) + point_text(points[i]) + point_items(points, i + 1)
    }
}

/// One conformer: the list of its atoms' positions.
pub open spec fn conformer_text(points: Seq<PointView>) -> Seq<char> {
    seq!['['] + point_items(points, 0)
}

/// The conformers from `i` on, with the bracket that closes the list.
pub open spec fn conformer_items(conformers: Seq<Seq<PointView>>, i: int) -> Seq<char>
    decreases conformers.len() - i,
{
    if i >= conformers.len() {
        seq![']']
    } else {
        separator(i) + conformer_text(conformers[i]) + conformer_items(conformers, i + 1)
    }
}

/// The list of the conformers.
pub open spec fn conformers_text(conformers: Seq<Seq<PointView>>) -> Seq<char> {
    seq!['['] + conformer_items(conformers, 0)
}

/// Covalent or dative bonds: an object of three lists.
pub open spec fn bonds_text(b: BondsView) -> Seq<char> {
    "{\"atom1\":"@ + int_list_text(u32_ints(b.atom1)) + ",\"atom2\":"@ + int_list_text(
        u32_ints(b.atom2),
    ) + ",\"order\":"@ + int_list_text(u8_ints(b.order)) + "}"@
}

/// Aromatic bonds: an object of two lists.
pub open spec fn aromatic_bonds_text(b: AromaticBondsView) -> Seq<char> {
    "{\"atom1\":"@ + int_list_text(u32_ints(b.atom1)) + ",\"atom2\":"@ + int_list_text(
        u32_ints(b.atom2),
    ) + "}"@
}

/// The field of the atoms' charges, if they are known.
pub open spec fn charges_field(charges: Option<Seq<i8>>) -> Seq<char> {
    match charges {
        Some(c) => ",\"atom_charges\":"@ + int_list_text(i8_ints(c)),
        None => Seq::empty(),
    }
}

/// The field of the covalent bonds, if they are known.
pub open spec fn bonds_field(bonds: Option<BondsView>) -> Seq<char> {
    match bonds {
        Some(b) => ",\"bonds\":"@ + bonds_text(b),
        None => Seq::empty(),
    }
}

/// The field of the dative bonds, if they are known.
pub open spec fn dative_bonds_field(bonds: Option<BondsView>) -> Seq<char> {
    match bonds {
        Some(b) => ",\"dative_bonds\":"@ + bonds_text(b),
        None => Seq::empty(),
    }
}

/// The field of the aromatic bonds, if they are known.
pub open spec fn aromatic_bonds_field(bonds: Option<AromaticBondsView>) -> Seq<char> {
    match bonds {
        Some(b) => ",\"aromatic_bonds\":"@ + aromatic_bonds_text(b),
        None => Seq::empty(),
    }
}

/// The field of the conformers, if any are known.
pub open spec fn conformers_field(conformers: Option<Seq<Seq<PointView>>>) -> Seq<char> {
    match conformers {
        Some(c) => ",\"conformers\":"@ + conformers_text(c),
        None => Seq::empty(),
    }
}

/// The document of a molecule: an object that holds the atomic numbers and,
/// behind them, one field for each optional value that is present.
pub open spec fn molecule_text(m: MoleculeView) -> Seq<char> {
    "{\"atomic_numbers\":"@ + int_list_text(u8_ints(m.atomic_numbers)) + charges_field(
        m.atom_charges,
    ) + bonds_field(m.bonds) + dative_bonds_field(m.dative_bonds) + aromatic_bonds_field(
        m.aromatic_bonds,
    ) + conformers_field(m.conformers) + "}"@
}

/// The document of a molecule that has none of the optional values holds the
/// atomic numbers and nothing else.
pub proof fn lemma_bare_document(m: MoleculeView)
    requires
        m.atom_charges is None,
        m.bonds is None,
        m.dative_bonds is None,
        m.aromatic_bonds is None,
        m.conformers is None,
    ensures
        molecule_text(m) == "{\"atomic_numbers\":"@ + int_list_text(u8_ints(m.atomic_numbers))
            + "}"@,
{
    assert(molecule_text(m) =~= "{\"atomic_numbers\":"@ + int_list_text(
        u8_ints(m.atomic_numbers),
    ) + "}"@);
}

/// Appends what opens a list.
fn push_open(out: &mut String)
    ensures
        final(out)@ == old(out)@ + seq!['['],
{
    proof {
        reveal_strlit("[");
    }
    out.append("[");
    assert(final(out)@ =~= old(out)@ + seq!['[']);
}

/// Appends what closes a list.
fn push_close(out: &mut String)
    ensures
        final(out)@ == old(out)@ + seq![']'],
{
    proof {
        reveal_strlit("]");
    }
    out.append("]");
    assert(final(out)@ =~= old(out)@ + seq![']']);
}

/// Appends what stands before the item at `i` of a list.
fn push_separator(out: &mut String, i: usize)
    ensures
        final(out)@ == old(out)@ + separator(i as int),
{
    proof {
        reveal_strlit(",");
    }
    if i != 0 {
        out.append(",");
    }
    assert(final(out)@ =~= old(out)@ + separator(i as int));
}

/// Appends a list of `u8`.
fn push_u8_list(out: &mut String, items: &Vec<u8>)
    ensures
        final(out)@ == old(out)@ + int_list_text(u8_ints(items@)),
{
    let ghost s = u8_ints(items@);
    push_open(out);
    let mut i: usize = 0;
    while i < items.len()
        invariant
            i <= items.len(),
            s == u8_ints(items@),
            out@ + int_items(s, i as int) == old(out)@ + int_list_text(s),
        decreases items.len() - i,
    {
        let ghost before = out@;
        push_separator(out, i);
        push_int(out, items[i] as i64);
        assert(out@ + int_items(s, i + 1) =~= before + int_items(s, i as int));
        i = i + 1;
    }
    let ghost before = out@;
    push_close(out);
    assert(out@ =~= before + int_items(s, i as int));
}

/// Appends a list of `i8`.
fn push_i8_list(out: &mut String, items: &Vec<i8>)
    ensures
        final(out)@ == old(out)@ + int_list_text(i8_ints(items@)),
{
    let ghost s = i8_ints(items@);
    push_open(out);
    let mut i: usize = 0;
    while i < items.len()
        invariant
            i <= items.len(),
            s == i8_ints(items@),
            out@ + int_items(s, i as int) == old(out)@ + int_list_text(s),
        decreases items.len() - i,
    {
        let ghost before = out@;
        push_separator(out, i);
        push_int(out, items[i] as i64);
        assert(out@ + int_items(s, i + 1) =~= before + int_items(s, i as int));
        i = i + 1;
    }
    let ghost before = out@;
    push_close(out);
    assert(out@ =~= before + int_items(s, i as int));
}

/// Appends a list of `u32`.
fn push_u32_list(out: &mut String, items: &Vec<u32>)
    ensures
        final(out)@ == old(out)@ + int_list_text(u32_ints(items@)),
{
    let ghost s = u32_ints(items@);
    push_open(out);
    let mut i: usize = 0;
    while i < items.len()
        invariant
            i <= items.len(),
            s == u32_ints(items@),
            out@ + int_items(s, i as int) == old(out)@ + int_list_text(s),
        decreases items.len() - i,
    {
        let ghost before = out@;
        push_separator(out, i);
        push_int(out, items[i] as i64);
        assert(out@ + int_items(s, i + 1) =~= before + int_items(s, i as int));
        i = i + 1;
    }
    let ghost before = out@;
    push_close(out);
    assert(out@ =~= before + int_items(s, i as int));
}

/// Appends the position of one atom.
fn push_point(out: &mut String, point: &[Coordinate; 3])
    ensures
        final(out)@ == old(out)@ + point_text(point_view(*point)),
        point_is_valid(point_view(*point)),
{
    proof {
        reveal_strlit(",");
    }
    push_open(out);
    out.append(point[0].as_str());
    out.append(",");
    out.append(point[1].as_str());
    out.append(",");
    out.append(point[2].as_str());
    push_close(out);
    assert(final(out)@ =~= old(out)@ + point_text(point_view(*point)));
}

/// Appends one conformer.
fn push_conformer(out: &mut String, points: &Vec<[Coordinate; 3]>)
    ensures
        final(out)@ == old(out)@ + conformer_text(conformer_view(*points)),
        conformer_is_valid(conformer_view(*points)),
{
    let ghost s = conformer_view(*points);
    push_open(out);
    let mut i: usize = 0;
    while i < points.len()
        invariant
            i <= points.len(),
            s == conformer_view(*points),
            forall|j: int| 0 <= j < i ==> point_is_valid(#[trigger] s[j]),
            out@ + point_items(s, i as int) == old(out)@ + conformer_text(s),
        decreases points.len() - i,
    {
        let ghost before = out@;
        push_separator(out, i);
        push_point(out, &points[i]);
        assert(out@ + point_items(s, i + 1) =~= before + point_items(s, i as int));
        i = i + 1;
    }
    let ghost before = out@;
    push_close(out);
    assert(out@ =~= before + point_items(s, i as int));
}

/// Appends the list of the conformers.
fn push_conformers(out: &mut String, conformers: &Vec<Vec<[Coordinate; 3]>>)
    ensures
        final(out)@ == old(out)@ + conformers_text(conformers_view(*conformers)),
        conformers_are_valid(conformers_view(*conformers)),
{
    let ghost s = conformers_view(*conformers);
    push_open(out);
    let mut i: usize = 0;
    while i < conformers.len()
        invariant
            i <= conformers.len(),
            s == conformers_view(*conformers),
            forall|j: int| 0 <= j < i ==> conformer_is_valid(#[trigger] s[j]),
            out@ + conformer_items(s, i as int) == old(out)@ + conformers_text(s),
        decreases conformers.len() - i,
    {
        let ghost before = out@;
        push_separator(out, i);
        push_conformer(out, &conformers[i]);
        assert(out@ + conformer_items(s, i + 1) =~= before + conformer_items(s, i as int));
        i = i + 1;
    }
    let ghost before = out@;
    push_close(out);
    assert(out@ =~= before + conformer_items(s, i as int));
}

/// Appends covalent or dative bonds.
fn push_bonds(out: &mut String, bonds: &Bonds)
    ensures
        final(out)@ == old(out)@ + bonds_text(bonds@),
{
    out.append("{\"atom1\":");
    push_u32_list(out, &bonds.atom1);
    out.append(",\"atom2\":");
    push_u32_list(out, &bonds.atom2);
    out.append(",\"order\":");
    push_u8_list(out, &bonds.order);
    out.append("}");
    assert(final(out)@ =~= old(out)@ + bonds_text(bonds@));
}

/// Appends aromatic bonds.
fn push_aromatic_bonds(out: &mut String, bonds: &AromaticBonds)
    ensures
        final(out)@ == old(out)@ + aromatic_bonds_text(bonds@),
{
    out.append("{\"atom1\":");
    push_u32_list(out, &bonds.atom1);
    out.append(",\"atom2\":");
    push_u32_list(out, &bonds.atom2);
    out.append("}");
    assert(final(out)@ =~= old(out)@ + aromatic_bonds_text(bonds@));
}

impl Bonds {
    /// The bonds as a document.
    pub fn to_json(&self) -> (text: String)
        ensures
            text@ == bonds_text(self@),
    {
        let mut out = String::new();
        push_bonds(&mut out, self);
        assert(out@ =~= bonds_text(self@));
        out
    }
}

impl AromaticBonds {
    /// The bonds as a document.
    pub fn to_json(&self) -> (text: String)
        ensures
            text@ == aromatic_bonds_text(self@),
    {
        let mut out = String::new();
        push_aromatic_bonds(&mut out, self);
        assert(out@ =~= aromatic_bonds_text(self@));
        out
    }
}

/// Appends the field of the atoms' charges, if they are known.
fn push_charges_field(out: &mut String, charges: &Option<Vec<i8>>)
    ensures
        final(out)@ == old(out)@ + charges_field(
            match *charges {
                Some(c) => Some(c@),
                None => None,
            },
        ),
{
    if let Some(charges) = charges {
        out.append(",\"atom_charges\":");
        push_i8_list(out, charges);
        assert(final(out)@ =~= old(out)@ + charges_field(Some(charges@)));
    } else {
        assert(final(out)@ =~= old(out)@ + charges_field(None));
    }
}

/// Appends the field of the covalent bonds, if they are known.
fn push_bonds_field(out: &mut String, bonds: &Option<Bonds>)
    ensures
        final(out)@ == old(out)@ + bonds_field(bonds_view(*bonds)),
{
    if let Some(bonds) = bonds {
        out.append(",\"bonds\":");
        push_bonds(out, bonds);
        assert(final(out)@ =~= old(out)@ + bonds_field(Some(bonds@)));
    } else {
        assert(final(out)@ =~= old(out)@ + bonds_field(None));
    }
}

/// Appends the field of the dative bonds, if they are known.
fn push_dative_bonds_field(out: &mut String, bonds: &Option<Bonds>)
    ensures
        final(out)@ == old(out)@ + dative_bonds_field(bonds_view(*bonds)),
{
    if let Some(bonds) = bonds {
        out.append(",\"dative_bonds\":");
        push_bonds(out, bonds);
        assert(final(out)@ =~= old(out)@ + dative_bonds_field(Some(bonds@)));
    } else {
        assert(final(out)@ =~= old(out)@ + dative_bonds_field(None));
    }
}

/// Appends the field of the aromatic bonds, if they are known.
fn push_aromatic_bonds_field(out: &mut String, bonds: &Option<AromaticBonds>)
    ensures
        final(out)@ == old(out)@ + aromatic_bonds_field(
            match *bonds {
                Some(b) => Some(b@),
                None => None,
            },
        ),
{
    if let Some(bonds) = bonds {
        out.append(",\"aromatic_bonds\":");
        push_aromatic_bonds(out, bonds);
        assert(final(out)@ =~= old(out)@ + aromatic_bonds_field(Some(bonds@)));
    } else {
        assert(final(out)@ =~= old(out)@ + aromatic_bonds_field(None));
    }
}

/// Appends the field of the conformers, if any are known.
fn push_conformers_field(out: &mut String, conformers: &Option<Vec<Vec<[Coordinate; 3]>>>)
    ensures
        final(out)@ == old(out)@ + conformers_field(
            match *conformers {
                Some(c) => Some(conformers_view(c)),
                None => None,
            },
        ),
        match *conformers {
            Some(c) => conformers_are_valid(conformers_view(c)),
            None => true,
        },
{
    if let Some(conformers) = conformers {
        out.append(",\"conformers\":");
        push_conformers(out, conformers);
        assert(final(out)@ =~= old(out)@ + conformers_field(Some(conformers_view(*conformers))));
    } else {
        assert(final(out)@ =~= old(out)@ + conformers_field(None));
    }
}

impl Molecule {
    /// The molecule as a document. A value that is absent leaves no trace in
    /// it.
    pub fn to_json(&self) -> (text: String)
        ensures
            text@ == molecule_text(self@),
            molecule_is_valid(self@),
    {
        let mut out = String::from_str("{\"atomic_numbers\":");
        push_u8_list(&mut out, &self.atomic_numbers);
        push_charges_field(&mut out, &self.atom_charges);
        push_bonds_field(&mut out, &self.bonds);
        push_dative_bonds_field(&mut out, &self.dative_bonds);
        push_aromatic_bonds_field(&mut out, &self.aromatic_bonds);
        push_conformers_field(&mut out, &self.conformers);
        out.append("}");
        out
    }
}

} // verus!
