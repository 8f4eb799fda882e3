use atomlite::AromaticBonds;
use atomlite::Bonds;
use atomlite::Coordinate;
use atomlite::Molecule;

fn literal(text: &str) -> Coordinate {
    Coordinate::new(text).unwrap()
}

fn bare(atomic_numbers: Vec<u8>) -> Molecule {
    Molecule {
        atomic_numbers,
        atom_charges: None,
        bonds: None,
        dative_bonds: None,
        aromatic_bonds: None,
        conformers: None,
    }
}

fn full() -> Molecule {
    Molecule {
        atomic_numbers: vec![6, 8, 255, 0],
        atom_charges: Some(vec![0, -1, 127, -128]),
        bonds: Some(Bonds { atom1: vec![0, 1], atom2: vec![1, 4294967295], order: vec![1, 2] }),
        dative_bonds: Some(Bonds { atom1: vec![2], atom2: vec![3], order: vec![1] }),
        aromatic_bonds: Some(AromaticBonds { atom1: vec![0, 1, 2], atom2: vec![1, 2, 0] }),
        conformers: Some(vec![
            vec![
                [literal("0.0"), literal("0.5"), literal("-1.25")],
                [literal("1.0"), literal("1e-7"), literal("3.4028235e+38")],
            ],
            vec![],
            vec![[literal("null"), literal("-0.0"), literal("2.0")]],
        ]),
    }
}

#[test]
fn full_molecule_comes_back() {
    let text = full().to_json();
    assert_eq!(Molecule::from_json(&text), Some(full()));
}

#[test]
fn bare_molecule_comes_back() {
    assert_eq!(Molecule::from_json("{\"atomic_numbers\":[1,2,3]}"), Some(bare(vec![1, 2, 3])));
    assert_eq!(Molecule::from_json("{\"atomic_numbers\":[]}"), Some(bare(vec![])));
}

#[test]
fn each_field_alone_comes_back() {
    let mut charges = bare(vec![1]);
    charges.atom_charges = Some(vec![-1]);
    let mut bonds = bare(vec![1]);
    bonds.bonds = Some(Bonds { atom1: vec![], atom2: vec![], order: vec![] });
    let mut dative = bare(vec![1]);
    dative.dative_bonds = Some(Bonds { atom1: vec![7], atom2: vec![8], order: vec![9] });
    let mut aromatic = bare(vec![1]);
    aromatic.aromatic_bonds = Some(AromaticBonds { atom1: vec![0], atom2: vec![1] });
    let mut conformers = bare(vec![1]);
    conformers.conformers = Some(vec![]);
    for molecule in [charges, bonds, dative, aromatic, conformers] {
        let text = molecule.to_json();
        assert_eq!(Molecule::from_json(&text), Some(molecule), "{}", text);
    }
}

#[test]
fn read_document_holds_what_was_written() {
    let molecule = Molecule::from_json(
        "{\"atomic_numbers\":[4,5],\"aromatic_bonds\":{\"atom1\":[0,1],\"atom2\":[1,2]},\
         \"conformers\":[[[0.0,0.0,0.0],[1.0,1.0,1.0]]]}",
    )
    .unwrap();
    assert_eq!(molecule.atomic_numbers, vec![4, 5]);
    assert_eq!(molecule.atom_charges, None);
    assert_eq!(molecule.bonds, None);
    assert_eq!(molecule.dative_bonds, None);
    assert_eq!(
        molecule.aromatic_bonds,
        Some(AromaticBonds { atom1: vec![0, 1], atom2: vec![1, 2] })
    );
    let conformers = molecule.conformers.unwrap();
    assert_eq!(conformers.len(), 1);
    assert_eq!(conformers[0].len(), 2);
    assert_eq!(conformers[0][1][2].as_str(), "1.0");
}

#[test]
fn texts_that_are_no_document() {
    for text in [
        "",
        "{}",
        "[]",
        "null",
        "{\"atomic_numbers\":[1,2,3]",
        "{\"atomic_numbers\":[1,2,3]} ",
        " {\"atomic_numbers\":[1,2,3]}",
        "{\"atomic_numbers\": [1,2,3]}",
        "{\"atomic_numbers\":[1, 2]}",
        "{\"atomic_numbers\":[1,2,]}",
        "{\"atomic_numbers\":[,1]}",
        "{\"atomic_numbers\":[1,2]}}",
        "{\"atomic_numbers\":[01]}",
        "{\"atomic_numbers\":[-0]}",
        "{\"atomic_numbers\":[+1]}",
        "{\"atomic_numbers\":[256]}",
        "{\"atomic_numbers\":[-1]}",
        "{\"atomic_numbers\":[1.0]}",
        "{\"atomic_numbers\":[99999999999999999999999999]}",
        "{\"atomic_numbers\":[1],\"atom_charges\":null}",
        "{\"atomic_numbers\":[1],\"atom_charges\":[128]}",
        "{\"atomic_numbers\":[1],\"atom_charges\":[-129]}",
        "{\"atomic_numbers\":[1],\"atom_charges\":[--1]}",
        "{\"atom_charges\":[0],\"atomic_numbers\":[1]}",
        "{\"atomic_numbers\":[1],\"bonds\":{\"atom1\":[0],\"atom2\":[4294967296],\"order\":[1]}}",
        "{\"atomic_numbers\":[1],\"bonds\":{\"atom1\":[0],\"atom2\":[1]}}",
        "{\"atomic_numbers\":[1],\"bonds\":{\"atom2\":[1],\"atom1\":[0],\"order\":[1]}}",
        "{\"atomic_numbers\":[1],\"dative_bonds\":{\"atom1\":[0],\"atom2\":[1],\"order\":[256]}}",
        "{\"atomic_numbers\":[1],\"aromatic_bonds\":{\"atom1\":[0],\"atom2\":[1],\"order\":[1]}}",
        "{\"atomic_numbers\":[1],\"conformers\":[[[0.0,0.0]]]}",
        "{\"atomic_numbers\":[1],\"conformers\":[[[0.0,0.0,0.0,0.0]]]}",
        "{\"atomic_numbers\":[1],\"conformers\":[[[0.0,0.0,.5]]]}",
        "{\"atomic_numbers\":[1],\"conformers\":[[[0.0,0.0,01]]]}",
        "{\"atomic_numbers\":[1],\"conformers\":[[0.0,0.0,0.0]]}",
        "{\"atomic_numbers\":[1],\"conformers\":[[[0.0,0.0,0.0]],]}",
        "{\"atomic_numbers\":[1],\"conformers\":[],\"bonds\":{\"atom1\":[],\"atom2\":[],\"order\":[]}}",
        "{\"atomic_numbers\":[1],\"atom_charges\":[0],\"atom_charges\":[0]}",
        "{\"atomic_numbers\":[1],\"name\":\"water\"}",
        "{\"atomic_numbers\":[١]}",
        "{\"atomic_numbers\":[1]}é",
    ] {
        assert_eq!(Molecule::from_json(text), None, "{}", text);
    }
}

#[test]
fn limits_of_the_integers() {
    let molecule = Molecule {
        atomic_numbers: vec![0, 255],
        atom_charges: Some(vec![-128, 127]),
        bonds: Some(Bonds { atom1: vec![0], atom2: vec![4294967295], order: vec![255] }),
        dative_bonds: None,
        aromatic_bonds: None,
        conformers: None,
    };
    let text = "{\"atomic_numbers\":[0,255],\"atom_charges\":[-128,127],\
                \"bonds\":{\"atom1\":[0],\"atom2\":[4294967295],\"order\":[255]}}";
    assert_eq!(molecule.to_json(), text);
    assert_eq!(Molecule::from_json(text), Some(molecule));
}

#[test]
fn many_atoms_come_back() {
    let atomic_numbers: Vec<u8> = (0..5000u32).map(|i| (i % 256) as u8).collect();
    let points: Vec<[Coordinate; 3]> = (0..5000u32)
        .map(|i| {
            [
                literal(&format!("{}.5", i)),
                literal(&format!("-{}e-3", i)),
                literal(&format!("{}", i)),
            ]
        })
        .collect();
    let mut molecule = bare(atomic_numbers);
    molecule.conformers = Some(vec![points]);
    let text = molecule.to_json();
    assert_eq!(Molecule::from_json(&text), Some(molecule));
}
