use mol3d::writer::accept_number;
use mol3d::{Coord, EncodeError, ReadFault, Molecule, ParseError, WriteFault};

fn at(x: f64) -> Coord {
    Coord::from_bits(x.to_bits())
}

fn number(c: Coord) -> f64 {
    f64::from_bits(c.to_bits())
}

#[test]
fn test_json_serialization() {
    let mut mol = Molecule::new("Test".to_string());
    mol.add_atom("C".to_string(), at(1.0), at(2.0), at(3.0));

    let json = mol.to_json().unwrap();
    let mol2 = Molecule::from_json(&json).unwrap();

    assert_eq!(mol.name, mol2.name);
    assert_eq!(mol.atoms.len(), mol2.atoms.len());
}

#[test]
fn example_w_encodes_and_decodes() {
    let mut mol = Molecule::new("W".to_string());
    mol.add_atom("O".to_string(), at(0.0), at(0.0), at(0.0));
    mol.add_atom("H".to_string(), at(1.0), at(0.0), at(0.0));
    mol.add_bond(0, 1, 1);
    let text = mol.to_json().unwrap();
    let back = Molecule::from_json(&text).unwrap();
    assert_eq!(back.name, "W");
    assert_eq!(back.atoms.len(), 2);
    assert_eq!(back.atoms[0].element, "O");
    assert_eq!(back.atoms[0].color, [255, 13, 13]);
    assert_eq!(back.atoms[1].element, "H");
    assert_eq!(back.atoms[1].color, [255, 255, 255]);
    assert_eq!(number(back.atoms[1].x), 1.0);
    assert_eq!(back.bonds.len(), 1);
    assert_eq!(back.bonds[0].atom1_idx, 0);
    assert_eq!(back.bonds[0].atom2_idx, 1);
    assert_eq!(back.bonds[0].bond_type, 1);
}

#[test]
fn to_json_exact_text() {
    let mut mol = Molecule::new("W".to_string());
    mol.add_atom("O".to_string(), at(0.0), at(0.0), at(0.0));
    mol.add_atom("H".to_string(), at(0.96), at(-0.24), at(1e21));
    mol.add_bond(0, 1, 1);
    assert_eq!(
        mol.to_json().unwrap(),
        "{\"name\":\"W\",\"atoms\":[{\"element\":\"O\",\"x\":0.0,\"y\":0.0,\"z\":0.0,\"color\":[255,13,13]},\
         {\"element\":\"H\",\"x\":0.96,\"y\":-0.24,\"z\":1e+21,\"color\":[255,255,255]}],\
         \"bonds\":[{\"atom1_idx\":0,\"atom2_idx\":1,\"bond_type\":1}]}"
    );
}

#[test]
fn to_json_of_empty_molecule() {
    let mol = Molecule::new("".to_string());
    assert_eq!(mol.to_json().unwrap(), "{\"name\":\"\",\"atoms\":[],\"bonds\":[]}");
}

#[test]
fn to_json_escapes_text() {
    let mut mol = Molecule::new("a \"b\"\n\\".to_string());
    mol.add_atom("é".to_string(), at(-0.0), at(0.5), at(2.0));
    let text = mol.to_json().unwrap();
    assert_eq!(
        text,
        "{\"name\":\"a \\\"b\\\"\\n\\\\\",\"atoms\":[{\"element\":\"é\",\"x\":-0.0,\"y\":0.5,\"z\":2.0,\
         \"color\":[255,20,147]}],\"bonds\":[]}"
    );
    let back = Molecule::from_json(&text).unwrap();
    assert_eq!(back.name, "a \"b\"\n\\");
    assert_eq!(back.atoms[0].element, "é");
    assert_eq!(back.atoms[0].x.to_bits(), (-0.0f64).to_bits());
}

#[test]
fn round_trip_keeps_every_field() {
    let mut mol = Molecule::new("Mixed".to_string());
    let values = [
        0.1,
        -0.30000000000000004,
        123456.789,
        5e-324,
        f64::MAX,
        f64::MIN_POSITIVE,
        1e-7,
        -1e23,
        3.141592653589793,
    ];
    for (i, v) in values.iter().enumerate() {
        mol.add_atom(format!("E{}", i), at(*v), at(-*v), at(*v / 3.0));
    }
    mol.add_bond(0, 1, 1);
    mol.add_bond(5, 2, 2);
    mol.add_bond(usize::MAX, 99, 255);
    let text = mol.to_json().unwrap();
    let back = Molecule::from_json(&text).unwrap();
    assert_eq!(back.name, mol.name);
    assert_eq!(back.atoms.len(), mol.atoms.len());
    for (a, b) in mol.atoms.iter().zip(back.atoms.iter()) {
        assert_eq!(a.element, b.element);
        assert_eq!(a.x, b.x);
        assert_eq!(a.y, b.y);
        assert_eq!(a.z, b.z);
        assert_eq!(a.color, b.color);
    }
    assert_eq!(back.bonds, mol.bonds);
    assert!(back.same(&mol));
    assert_eq!(back.to_json().unwrap(), text);
}

#[test]
fn round_trip_of_many_doubles() {
    let mut mol = Molecule::new("Many".to_string());
    let mut x: u64 = 0x2545_f491_4f6c_dd1d;
    let mut count = 0;
    while count < 60 {
        x ^= x << 13;
        x ^= x >> 7;
        x ^= x << 17;
        if (x >> 52) & 0x7ff != 0x7ff {
            mol.add_atom("C".to_string(), Coord::from_bits(x), at(0.0), at(1.0));
            count += 1;
        }
    }
    let text = mol.to_json().unwrap();
    let back = Molecule::from_json(&text).unwrap();
    assert_eq!(back.atoms.len(), 60);
    for (a, b) in mol.atoms.iter().zip(back.atoms.iter()) {
        assert_eq!(a.x, b.x);
    }
}

#[test]
fn to_json_matches_the_codec_on_doubles() {
    for v in [0.96, -0.24, 0.93, 1.0, 1e300, 2.5e-300, 0.1, 100.0, 1e16, 123456789012345680.0] {
        let mut mol = Molecule::new("n".to_string());
        mol.add_atom("C".to_string(), at(v), at(v), at(v));
        let n = serde_json::to_string(&v).unwrap();
        let expected = format!(
            "{{\"name\":\"n\",\"atoms\":[{{\"element\":\"C\",\"x\":{n},\"y\":{n},\"z\":{n},\"color\":[144,144,144]}}],\"bonds\":[]}}"
        );
        assert_eq!(mol.to_json().unwrap(), expected);
    }
}

#[test]
fn stored_color_is_trusted() {
    let text = "{\"name\":\"n\",\"atoms\":[{\"element\":\"O\",\"x\":0.5,\"y\":1,\"z\":-2,\"color\":[1,2,3]}],\"bonds\":[]}";
    let mol = Molecule::from_json(text).unwrap();
    assert_eq!(mol.atoms[0].color, [1, 2, 3]);
    assert_eq!(number(mol.atoms[0].x), 0.5);
    assert_eq!(number(mol.atoms[0].y), 1.0);
    assert_eq!(number(mol.atoms[0].z), -2.0);
    let again = Molecule::from_json(&mol.to_json().unwrap()).unwrap();
    assert_eq!(again.atoms[0].color, [1, 2, 3]);
}

#[test]
fn integers_are_read_as_coordinates() {
    let text = "{\"name\":\"n\",\"atoms\":[{\"element\":\"O\",\"x\":3,\"y\":-7,\"z\":18446744073709551615,\"color\":[0,0,255]}],\"bonds\":[]}";
    let mol = Molecule::from_json(text).unwrap();
    assert_eq!(number(mol.atoms[0].x), 3.0);
    assert_eq!(number(mol.atoms[0].y), -7.0);
    assert_eq!(number(mol.atoms[0].z), 18446744073709551615.0);
    assert_eq!(mol.atoms[0].color, [0, 0, 255]);
}

#[test]
fn unknown_members_are_passed_over() {
    let text = "{\"extra\":[1,{\"a\":null}],\"bonds\":[{\"bond_type\":2,\"atom2_idx\":4,\"note\":true,\"atom1_idx\":3}],\"atoms\":[],\"name\":\"n\"}";
    let mol = Molecule::from_json(text).unwrap();
    assert_eq!(mol.name, "n");
    assert!(mol.atoms.is_empty());
    assert_eq!(mol.bonds.len(), 1);
    assert_eq!(mol.bonds[0].atom1_idx, 3);
    assert_eq!(mol.bonds[0].atom2_idx, 4);
    assert_eq!(mol.bonds[0].bond_type, 2);
}

fn fault_of(text: &str) -> ReadFault {
    match Molecule::from_json(text) {
        Ok(_) => panic!("read as a molecule: {}", text),
        Err(e) => e.fault,
    }
}

#[test]
fn syntax_faults() {
    assert_eq!(fault_of(""), ReadFault::Syntax);
    assert_eq!(fault_of("not json"), ReadFault::Syntax);
    assert_eq!(fault_of("{\"name\":\"n\",\"atoms\":[],\"bonds\":[]"), ReadFault::Syntax);
    assert_eq!(fault_of("{\"name\":\"n\",\"atoms\":[],\"bonds\":[]} x"), ReadFault::Syntax);
    assert_eq!(fault_of("{\"name\":\"n\",\"atoms\":[],\"bonds\":[],}"), ReadFault::Syntax);
    let e = Molecule::from_json("{\"name\"").unwrap_err();
    assert_eq!(e.fault, ReadFault::Syntax);
    assert_eq!(e.detail, "EOF while parsing an object at line 1 column 7");
}

#[test]
fn name_faults() {
    assert_eq!(fault_of("{}"), ReadFault::Name);
    assert_eq!(fault_of("[]"), ReadFault::Name);
    assert_eq!(fault_of("null"), ReadFault::Name);
    assert_eq!(fault_of("3"), ReadFault::Name);
    assert_eq!(fault_of("{\"atoms\":[],\"bonds\":[]}"), ReadFault::Name);
    assert_eq!(fault_of("{\"name\":5,\"atoms\":[],\"bonds\":[]}"), ReadFault::Name);
    assert_eq!(fault_of("{\"name\":null,\"atoms\":[],\"bonds\":[]}"), ReadFault::Name);
    assert_eq!(fault_of("{\"Name\":\"n\",\"atoms\":[],\"bonds\":[]}"), ReadFault::Name);
}

#[test]
fn atoms_faults() {
    assert_eq!(fault_of("{\"name\":\"n\",\"bonds\":[]}"), ReadFault::Atoms);
    assert_eq!(fault_of("{\"name\":\"n\",\"atoms\":{},\"bonds\":[]}"), ReadFault::Atoms);
    assert_eq!(fault_of("{\"name\":\"n\",\"atoms\":\"none\",\"bonds\":[]}"), ReadFault::Atoms);
}

fn with_atom(atom: &str) -> String {
    format!(
        "{{\"name\":\"n\",\"atoms\":[{{\"element\":\"C\",\"x\":0,\"y\":0,\"z\":0,\"color\":[1,2,3]}},{}],\"bonds\":[]}}",
        atom
    )
}

#[test]
fn atom_faults() {
    let bad = ReadFault::Atom { index: 1 };
    assert_eq!(fault_of(&with_atom("{}")), bad);
    assert_eq!(fault_of(&with_atom("7")), bad);
    assert_eq!(fault_of(&with_atom("[\"C\",0,0,0,[1,2,3]]")), bad);
    assert_eq!(fault_of(&with_atom("{\"x\":0,\"y\":0,\"z\":0,\"color\":[1,2,3]}")), bad);
    assert_eq!(
        fault_of(&with_atom("{\"element\":1,\"x\":0,\"y\":0,\"z\":0,\"color\":[1,2,3]}")),
        bad
    );
    assert_eq!(
        fault_of(&with_atom("{\"element\":\"C\",\"x\":\"0\",\"y\":0,\"z\":0,\"color\":[1,2,3]}")),
        bad
    );
    assert_eq!(
        fault_of(&with_atom("{\"element\":\"C\",\"x\":0,\"y\":null,\"z\":0,\"color\":[1,2,3]}")),
        bad
    );
    assert_eq!(fault_of(&with_atom("{\"element\":\"C\",\"x\":0,\"y\":0,\"color\":[1,2,3]}")), bad);
    assert_eq!(fault_of(&with_atom("{\"element\":\"C\",\"x\":0,\"y\":0,\"z\":0}")), bad);
    assert_eq!(
        fault_of(&with_atom("{\"element\":\"C\",\"x\":0,\"y\":0,\"z\":0,\"color\":[1,2]}")),
        bad
    );
    assert_eq!(
        fault_of(&with_atom("{\"element\":\"C\",\"x\":0,\"y\":0,\"z\":0,\"color\":[1,2,3,4]}")),
        bad
    );
    assert_eq!(
        fault_of(&with_atom("{\"element\":\"C\",\"x\":0,\"y\":0,\"z\":0,\"color\":[1,2,256]}")),
        bad
    );
    assert_eq!(
        fault_of(&with_atom("{\"element\":\"C\",\"x\":0,\"y\":0,\"z\":0,\"color\":[1,-2,3]}")),
        bad
    );
    assert_eq!(
        fault_of(&with_atom("{\"element\":\"C\",\"x\":0,\"y\":0,\"z\":0,\"color\":[1,2.0,3]}")),
        bad
    );
    assert_eq!(
        fault_of(&with_atom("{\"element\":\"C\",\"x\":0,\"y\":0,\"z\":0,\"color\":\"red\"}")),
        bad
    );
    assert!(Molecule::from_json(&with_atom(
        "{\"element\":\"C\",\"x\":0,\"y\":0,\"z\":0,\"color\":[1,2,255]}"
    ))
    .is_ok());
}

#[test]
fn first_bad_atom_is_named() {
    let text = "{\"name\":\"n\",\"atoms\":[{},{}],\"bonds\":7}";
    assert_eq!(fault_of(text), ReadFault::Atom { index: 0 });
}

#[test]
fn bonds_faults() {
    assert_eq!(fault_of("{\"name\":\"n\",\"atoms\":[]}"), ReadFault::Bonds);
    assert_eq!(fault_of("{\"name\":\"n\",\"atoms\":[],\"bonds\":null}"), ReadFault::Bonds);
    assert_eq!(fault_of("{\"name\":\"n\",\"atoms\":[],\"bonds\":{\"0\":1}}"), ReadFault::Bonds);
}

fn with_bond(bond: &str) -> String {
    format!(
        "{{\"name\":\"n\",\"atoms\":[],\"bonds\":[{{\"atom1_idx\":0,\"atom2_idx\":1,\"bond_type\":1}},{{\"atom1_idx\":5,\"atom2_idx\":6,\"bond_type\":2}},{}]}}",
        bond
    )
}

#[test]
fn bond_faults() {
    let bad = ReadFault::Bond { index: 2 };
    assert_eq!(fault_of(&with_bond("{}")), bad);
    assert_eq!(fault_of(&with_bond("[0,1,1]")), bad);
    assert_eq!(fault_of(&with_bond("{\"atom2_idx\":1,\"bond_type\":1}")), bad);
    assert_eq!(fault_of(&with_bond("{\"atom1_idx\":0,\"bond_type\":1}")), bad);
    assert_eq!(fault_of(&with_bond("{\"atom1_idx\":0,\"atom2_idx\":1}")), bad);
    assert_eq!(fault_of(&with_bond("{\"atom1_idx\":-1,\"atom2_idx\":1,\"bond_type\":1}")), bad);
    assert_eq!(fault_of(&with_bond("{\"atom1_idx\":0.0,\"atom2_idx\":1,\"bond_type\":1}")), bad);
    assert_eq!(fault_of(&with_bond("{\"atom1_idx\":0,\"atom2_idx\":\"1\",\"bond_type\":1}")), bad);
    assert_eq!(fault_of(&with_bond("{\"atom1_idx\":0,\"atom2_idx\":1,\"bond_type\":256}")), bad);
    assert_eq!(
        fault_of(&with_bond(
            "{\"atom1_idx\":18446744073709551616,\"atom2_idx\":1,\"bond_type\":1}"
        )),
        bad
    );
    assert!(Molecule::from_json(&with_bond(
        "{\"atom1_idx\":18446744073709551615,\"atom2_idx\":1,\"bond_type\":255}"
    ))
    .is_ok());
}

#[test]
fn fault_words() {
    assert_eq!(ParseError::of_fault(ReadFault::Syntax).detail, "not a JSON document");
    assert_eq!(ParseError::of_fault(ReadFault::Name).detail, "missing or malformed field `name`");
    assert_eq!(ParseError::of_fault(ReadFault::Atoms).detail, "missing or malformed field `atoms`");
    assert_eq!(ParseError::of_fault(ReadFault::Atom { index: 3 }).detail, "malformed atom");
    assert_eq!(ParseError::of_fault(ReadFault::Bonds).detail, "missing or malformed field `bonds`");
    assert_eq!(ParseError::of_fault(ReadFault::Bond { index: 0 }).detail, "malformed bond");
    assert_eq!(ParseError::of_fault(ReadFault::Bond { index: 4 }).fault, ReadFault::Bond { index: 4 });
    let e = Molecule::from_json("{\"name\":\"n\",\"atoms\":[3],\"bonds\":[]}").unwrap_err();
    assert_eq!(e.fault, ReadFault::Atom { index: 0 });
    assert_eq!(e.detail, "malformed atom");
}

#[test]
fn from_value_reads_a_document() {
    let doc: serde_json::Value = serde_json::from_str(
        "{\"name\":\"v\",\"atoms\":[{\"element\":\"N\",\"x\":1.25,\"y\":2,\"z\":-3,\"color\":[9,8,7]}],\"bonds\":[{\"atom1_idx\":0,\"atom2_idx\":0,\"bond_type\":3}]}",
    )
    .unwrap();
    let mol = Molecule::from_value(&doc).unwrap();
    assert_eq!(mol.name, "v");
    assert_eq!(mol.atoms.len(), 1);
    assert_eq!(mol.atoms[0].element, "N");
    assert_eq!(number(mol.atoms[0].x), 1.25);
    assert_eq!(number(mol.atoms[0].y), 2.0);
    assert_eq!(number(mol.atoms[0].z), -3.0);
    assert_eq!(mol.atoms[0].color, [9, 8, 7]);
    assert_eq!(mol.bonds.len(), 1);
    assert_eq!(mol.bonds[0].bond_type, 3);
    let e = Molecule::from_value(&serde_json::Value::Null).unwrap_err();
    assert_eq!(e.fault, ReadFault::Name);
}

#[test]
fn to_value_builds_the_document() {
    let mut mol = Molecule::new("v".to_string());
    mol.add_atom("S".to_string(), at(0.5), at(-1.0), at(4.0));
    mol.add_bond(2, 3, 1);
    let doc = mol.to_value().unwrap();
    let expected: serde_json::Value = serde_json::from_str(
        "{\"name\":\"v\",\"atoms\":[{\"element\":\"S\",\"x\":0.5,\"y\":-1.0,\"z\":4.0,\"color\":[255,255,48]}],\"bonds\":[{\"atom1_idx\":2,\"atom2_idx\":3,\"bond_type\":1}]}",
    )
    .unwrap();
    assert_eq!(doc, expected);
    let names: Vec<&String> = doc.as_object().unwrap().keys().collect();
    assert_eq!(names, ["name", "atoms", "bonds"]);
    let atom_names: Vec<&String> = doc["atoms"][0].as_object().unwrap().keys().collect();
    assert_eq!(atom_names, ["element", "x", "y", "z", "color"]);
    assert!(doc["atoms"][0]["x"].is_f64());
    assert!(doc["atoms"][0]["color"][0].is_u64());
}

#[test]
fn infinities_and_nans_are_written_as_null() {
    let mut mol = Molecule::new("n".to_string());
    mol.add_atom("C".to_string(), at(0.0), at(0.0), at(0.0));
    mol.add_atom("C".to_string(), at(f64::NAN), at(f64::INFINITY), at(f64::NEG_INFINITY));
    let text = mol.to_json().unwrap();
    assert_eq!(
        text,
        "{\"name\":\"n\",\"atoms\":[{\"element\":\"C\",\"x\":0.0,\"y\":0.0,\"z\":0.0,\"color\":[144,144,144]},\
         {\"element\":\"C\",\"x\":null,\"y\":null,\"z\":null,\"color\":[144,144,144]}],\"bonds\":[]}"
    );
    assert_eq!(fault_of(&text), ReadFault::Atom { index: 1 });
}

#[test]
fn accept_number_takes_the_same_double_only() {
    let half = at(0.5);
    let read = serde_json::from_str::<serde_json::Value>("5e-1");
    assert_eq!(accept_number(read, half), Some(serde_json::Value::from(0.5)));
    let other = serde_json::from_str::<serde_json::Value>("0.25");
    assert_eq!(accept_number(other, half), None);
    let integer = serde_json::from_str::<serde_json::Value>("2");
    assert_eq!(accept_number(integer, at(2.0)), None);
    let float = serde_json::from_str::<serde_json::Value>("2.0");
    assert!(accept_number(float, at(2.0)).is_some());
    let text = serde_json::from_str::<serde_json::Value>("\"0.5\"");
    assert_eq!(accept_number(text, half), None);
    let broken = serde_json::from_str::<serde_json::Value>("0.5.");
    assert!(broken.is_err());
    assert_eq!(accept_number(broken, half), None);
    let zero = serde_json::from_str::<serde_json::Value>("0.0");
    assert_eq!(accept_number(zero, at(-0.0)), None);
}

#[test]
fn encode_error_is_printable() {
    let e = EncodeError { fault: WriteFault::Coordinate { atom: 2 }, detail: "x".to_string() };
    assert_eq!(format!("{:?}", e), "EncodeError { fault: Coordinate { atom: 2 }, detail: \"x\" }");
    assert_ne!(WriteFault::Print, WriteFault::Coordinate { atom: 0 });
}
