use atomlite::decimal::digit_str;
use atomlite::decimal::push_int;
use atomlite::decimal::push_nat;
use atomlite::AromaticBonds;
use atomlite::Bonds;
use atomlite::Coordinate;
use atomlite::Molecule;

fn coordinate(x: f32) -> Coordinate {
    Coordinate::new(&serde_json::to_string(&x).unwrap()).unwrap()
}

fn point(x: f32, y: f32, z: f32) -> [Coordinate; 3] {
    [coordinate(x), coordinate(y), coordinate(z)]
}

fn bare(atomic_numbers: Vec<u8>) -> Molecule {
    Molecule {
        atomic_numbers,
        atom_charges: None,
        bonds: None,
        dative_bonds: None,
        aromatic_bonds: None,
        conformers: None,
    }
}

fn full() -> Molecule {
    Molecule {
        atomic_numbers: vec![6, 8, 255, 0],
        atom_charges: Some(vec![0, -1, 127, -128]),
        bonds: Some(Bonds { atom1: vec![0, 1], atom2: vec![1, 4294967295], order: vec![1, 2] }),
        dative_bonds: Some(Bonds { atom1: vec![2], atom2: vec![3], order: vec![1] }),
        aromatic_bonds: Some(AromaticBonds { atom1: vec![0, 1, 2], atom2: vec![1, 2, 0] }),
        conformers: Some(vec![
            vec![point(0.0, 0.5, -1.25), point(1.0, 1.0, 1.0)],
            vec![],
            vec![point(1.0e-7, 3.0e10, 2.0)],
        ]),
    }
}

#[test]
fn bare_molecule_holds_only_atomic_numbers() {
    assert_eq!(bare(vec![1, 2, 3]).to_json(), "{\"atomic_numbers\":[1,2,3]}");
}

#[test]
fn molecule_without_atoms() {
    assert_eq!(bare(vec![]).to_json(), "{\"atomic_numbers\":[]}");
}

#[test]
fn full_molecule_holds_every_field_in_order() {
    assert_eq!(
        full().to_json(),
        "{\"atomic_numbers\":[6,8,255,0],\"atom_charges\":[0,-1,127,-128],\
         \"bonds\":{\"atom1\":[0,1],\"atom2\":[1,4294967295],\"order\":[1,2]},\
         \"dative_bonds\":{\"atom1\":[2],\"atom2\":[3],\"order\":[1]},\
         \"aromatic_bonds\":{\"atom1\":[0,1,2],\"atom2\":[1,2,0]},\
         \"conformers\":[[[0.0,0.5,-1.25],[1.0,1.0,1.0]],[],[[1e-7,30000000000.0,2.0]]]}"
    );
}

#[test]
fn document_is_what_the_encoder_reads() {
    let value: serde_json::Value = serde_json::from_str(&full().to_json()).unwrap();
    let object = value.as_object().unwrap();
    assert_eq!(object.len(), 6);
    assert_eq!(object["atomic_numbers"], serde_json::Value::from(vec![6, 8, 255, 0]));
    assert_eq!(object["atom_charges"], serde_json::Value::from(vec![0, -1, 127, -128]));
    assert_eq!(object["bonds"]["atom2"], serde_json::Value::from(vec![1u32, 4294967295u32]));
    assert_eq!(object["bonds"]["order"], serde_json::Value::from(vec![1, 2]));
    assert_eq!(object["dative_bonds"]["atom1"], serde_json::Value::from(vec![2]));
    assert_eq!(object["aromatic_bonds"]["atom2"], serde_json::Value::from(vec![1, 2, 0]));
    assert_eq!(object["conformers"][0][0][2], serde_json::Value::from(-1.25));
    assert_eq!(object["conformers"][1], serde_json::Value::Array(vec![]));
    assert_eq!(object["conformers"][2][0][1], serde_json::Value::from(3.0e10));
}

#[test]
fn absent_fields_leave_no_trace() {
    let mut molecule = bare(vec![4, 5]);
    molecule.aromatic_bonds = Some(AromaticBonds { atom1: vec![0, 1], atom2: vec![1, 2] });
    molecule.conformers = Some(vec![vec![point(0.0, 0.0, 0.0), point(1.0, 1.0, 1.0)]]);
    let text = molecule.to_json();
    assert_eq!(
        text,
        "{\"atomic_numbers\":[4,5],\"aromatic_bonds\":{\"atom1\":[0,1],\"atom2\":[1,2]},\
         \"conformers\":[[[0.0,0.0,0.0],[1.0,1.0,1.0]]]}"
    );
    assert!(!text.contains("null"));
    assert!(!text.contains("atom_charges"));
    assert!(!text.contains("\"bonds\""));
    assert!(!text.contains("dative_bonds"));
}

#[test]
fn bonds_are_three_lists() {
    let bonds = Bonds { atom1: vec![0, 1], atom2: vec![1, 2], order: vec![1, 2] };
    assert_eq!(bonds.to_json(), "{\"atom1\":[0,1],\"atom2\":[1,2],\"order\":[1,2]}");
}

#[test]
fn aromatic_bonds_are_two_lists() {
    let bonds = AromaticBonds { atom1: vec![0], atom2: vec![1] };
    assert_eq!(bonds.to_json(), "{\"atom1\":[0],\"atom2\":[1]}");
}

#[test]
fn lists_of_unequal_length_pass_through() {
    let bonds = Bonds { atom1: vec![0, 1, 2], atom2: vec![], order: vec![9] };
    assert_eq!(bonds.to_json(), "{\"atom1\":[0,1,2],\"atom2\":[],\"order\":[9]}");
}

#[test]
fn decimal_digits() {
    assert_eq!(digit_str(0), "0");
    assert_eq!(digit_str(7), "7");
    assert_eq!(digit_str(9), "9");
}

#[test]
fn naturals_in_decimal() {
    let mut out = String::from("n=");
    push_nat(&mut out, 0);
    out.push(' ');
    push_nat(&mut out, 10);
    out.push(' ');
    push_nat(&mut out, 1234567890);
    out.push(' ');
    push_nat(&mut out, u64::MAX);
    assert_eq!(out, "n=0 10 1234567890 18446744073709551615");
}

#[test]
fn integers_in_decimal() {
    let mut out = String::new();
    push_int(&mut out, -1);
    out.push(' ');
    push_int(&mut out, 0);
    out.push(' ');
    push_int(&mut out, 905);
    out.push(' ');
    push_int(&mut out, i64::MIN);
    out.push(' ');
    push_int(&mut out, i64::MAX);
    assert_eq!(out, "-1 0 905 -9223372036854775808 9223372036854775807");
}

#[test]
fn coordinates_are_number_literals() {
    for text in ["0", "-0", "7", "10", "-12.5", "0.0", "1e5", "1E5", "1e+5", "2.5e-10", "null"] {
        let coordinate = Coordinate::new(text);
        assert!(coordinate.is_some(), "{}", text);
        assert_eq!(coordinate.unwrap().as_str(), text);
        assert!(Coordinate::accepts(text), "{}", text);
    }
}

#[test]
fn other_texts_are_no_coordinates() {
    for text in [
        "", "-", "+1", "01", "1.", ".5", "1e", "1e+", "1.5.2", "1 ", " 1", "0x10", "nul", "nulll",
        "NaN", "1,2", "١", "1e5e5", "--1", "1-",
    ] {
        assert!(Coordinate::new(text).is_none(), "{}", text);
        assert!(!Coordinate::accepts(text), "{}", text);
    }
}

#[test]
fn coordinates_of_floats() {
    assert_eq!(coordinate(0.0).as_str(), "0.0");
    assert_eq!(coordinate(-2.5).as_str(), "-2.5");
    assert_eq!(coordinate(f32::NAN).as_str(), "null");
    assert_eq!(coordinate(f32::INFINITY).as_str(), "null");
    assert_eq!(coordinate(f32::MAX).as_str(), "3.4028235e+38");
    assert_eq!(coordinate(f32::MIN_POSITIVE).as_str(), "1.1754944e-38");
}

#[test]
fn consistent_molecules() {
    assert!(bare(vec![]).is_consistent());
    assert!(bare(vec![1, 2, 3]).is_consistent());
    let mut molecule = bare(vec![1, 2, 3]);
    molecule.atom_charges = Some(vec![0, 0, 0]);
    molecule.bonds = Some(Bonds { atom1: vec![0, 1], atom2: vec![1, 2], order: vec![1, 2] });
    molecule.dative_bonds = Some(Bonds { atom1: vec![], atom2: vec![], order: vec![] });
    molecule.aromatic_bonds = Some(AromaticBonds { atom1: vec![0], atom2: vec![2] });
    molecule.conformers = Some(vec![
        vec![point(0.0, 0.0, 0.0), point(1.0, 1.0, 1.0), point(2.0, 2.0, 2.0)],
        vec![point(0.5, 0.0, 0.0), point(1.5, 1.0, 1.0), point(2.5, 2.0, 2.0)],
    ]);
    assert!(molecule.is_consistent());
    molecule.conformers = Some(vec![]);
    assert!(molecule.is_consistent());
}

#[test]
fn inconsistent_molecules() {
    let mut charges = bare(vec![1, 2, 3]);
    charges.atom_charges = Some(vec![0, 0]);
    assert!(!charges.is_consistent());
    let mut bonds = bare(vec![1, 2, 3]);
    bonds.bonds = Some(Bonds { atom1: vec![0, 1], atom2: vec![1, 2], order: vec![1] });
    assert!(!bonds.is_consistent());
    let mut dative = bare(vec![1, 2, 3]);
    dative.dative_bonds = Some(Bonds { atom1: vec![0, 1], atom2: vec![1], order: vec![1, 1] });
    assert!(!dative.is_consistent());
    let mut aromatic = bare(vec![1, 2, 3]);
    aromatic.aromatic_bonds = Some(AromaticBonds { atom1: vec![0], atom2: vec![] });
    assert!(!aromatic.is_consistent());
    let mut conformers = bare(vec![1, 2]);
    conformers.conformers = Some(vec![
        vec![point(0.0, 0.0, 0.0), point(1.0, 1.0, 1.0)],
        vec![point(0.0, 0.0, 0.0)],
    ]);
    assert!(!conformers.is_consistent());
    assert_eq!(
        conformers.to_json(),
        "{\"atomic_numbers\":[1,2],\"conformers\":[[[0.0,0.0,0.0],[1.0,1.0,1.0]],[[0.0,0.0,0.0]]]}"
    );
}

#[test]
fn consistent_bonds() {
    assert!(Bonds { atom1: vec![0, 1], atom2: vec![1, 2], order: vec![1, 2] }.is_consistent());
    assert!(!Bonds { atom1: vec![0, 1], atom2: vec![1, 2], order: vec![] }.is_consistent());
    assert!(!Bonds { atom1: vec![0], atom2: vec![1, 2], order: vec![1, 2] }.is_consistent());
    assert!(AromaticBonds { atom1: vec![0, 1], atom2: vec![1, 2] }.is_consistent());
    assert!(!AromaticBonds { atom1: vec![0, 1], atom2: vec![1] }.is_consistent());
}
