//! The exchange format: a molecule as a JSON document.
//!
//! A molecule is an object with the members `name`, `atoms` and `bonds`. An
//! atom is an object with `element`, `x`, `y`, `z` and `color`, a bond one
//! with `atom1_idx`, `atom2_idx` and `bond_type`. This module says which
//! document a molecule is written as and which molecule a document is read
//! as, and proves that reading undoes writing.
//!
//! Text is the codec's business. What it reads a text as and what it prints
//! a document as are not known here; they go by the names `json_parse` and
//! `json_print`, and what is said of texts is said over these names.

use crate::coord::Coord;
use crate::decimal::expansion_text;
use crate::json::{json_parse, json_print, members_get, JsonDoc, JsonNum};
use crate::molecule::{AtomView, Bond, MoleculeView};
use vstd::prelude::*;

verus! {

/// Why a text is not a molecule.
#[derive(Clone, Copy, Debug, PartialEq, Eq, Structural)]
pub enum ReadFault {
    /// The text is not well-formed JSON.
    Syntax,
    /// There is no member `name`, or it is not a string.
    Name,
    /// There is no member `atoms`, or it is not an array.
    Atoms,
    /// The atom at this position lacks a member, or has one that is not what
    /// the format asks for.
    Atom { index: usize },
    /// There is no member `bonds`, or it is not an array.
    Bonds,
    /// The bond at this position lacks a member, or has one that is not what
    /// the format asks for.
    Bond { index: usize },
}

/// The words that go with a fault of the document.
pub open spec fn fault_text(fault: ReadFault) -> Seq<char> {
    match fault {
        ReadFault::Syntax => "not a JSON document"@,
        ReadFault::Name => "missing or malformed field `name`"@,
        ReadFault::Atoms => "missing or malformed field `atoms`"@,
        ReadFault::Atom { .. } => "malformed atom"@,
        ReadFault::Bonds => "missing or malformed field `bonds`"@,
        ReadFault::Bond { .. } => "malformed bond"@,
    }
}

/// A coordinate as a document: the number, or `null` for an infinity or a NaN.
pub open spec fn coord_doc(c: Coord) -> JsonDoc {
    if c.finite() {
        JsonDoc::Number(JsonNum::Float(c.bits))
    } else {
        JsonDoc::Null
    }
}

/// A byte as a document.
pub open spec fn byte_doc(b: u8) -> JsonDoc {
    JsonDoc::Number(JsonNum::PosInt(b as u64))
}

/// A position as a document.
pub open spec fn index_doc(i: usize) -> JsonDoc {
    JsonDoc::Number(JsonNum::PosInt(i as u64))
}

/// A colour as a document: the array of its three bytes.
pub open spec fn color_doc(color: (u8, u8, u8)) -> JsonDoc {
    JsonDoc::Array(seq![byte_doc(color.0), byte_doc(color.1), byte_doc(color.2)])
}

/// An atom as a document.
pub open spec fn atom_doc(a: AtomView) -> JsonDoc {
    JsonDoc::Object(
        seq![
            ("element"@, JsonDoc::Text(a.element)),
            ("x"@, coord_doc(a.x)),
            ("y"@, coord_doc(a.y)),
            ("z"@, coord_doc(a.z)),
            ("color"@, color_doc(a.color)),
        ],
    )
}

/// A bond as a document.
pub open spec fn bond_doc(b: Bond) -> JsonDoc {
    JsonDoc::Object(
        seq![
            ("atom1_idx"@, index_doc(b.atom1_idx)),
            ("atom2_idx"@, index_doc(b.atom2_idx)),
            ("bond_type"@, byte_doc(b.bond_type)),
        ],
    )
}

/// Atoms as documents, one for one.
pub open spec fn atom_docs(atoms: Seq<AtomView>) -> Seq<JsonDoc> {
    Seq::new(atoms.len(), |i: int| atom_doc(atoms[i]))
}

/// Bonds as documents, one for one.
pub open spec fn bond_docs(bonds: Seq<Bond>) -> Seq<JsonDoc> {
    Seq::new(bonds.len(), |i: int| bond_doc(bonds[i]))
}

/// A molecule as a document.
pub open spec fn molecule_doc(m: MoleculeView) -> JsonDoc {
    JsonDoc::Object(
        seq![
            ("name"@, JsonDoc::Text(m.name)),
            ("atoms"@, JsonDoc::Array(atom_docs(m.atoms))),
            ("bonds"@, JsonDoc::Array(bond_docs(m.bonds))),
        ],
    )
}

/// Why a molecule was not written.
#[derive(Clone, Copy, Debug, PartialEq, Eq, Structural)]
pub enum WriteFault {
    /// The codec did not take a coordinate of the atom at this position as
    /// the number that it is.
    Coordinate { atom: usize },
    /// The codec did not print the document.
    Print,
    /// The text that the codec printed was not read back as the molecule.
    ReadBack,
}

/// Whether the codec takes a coordinate. An infinity or a NaN is written as
/// `null`, which takes no codec. A number reaches the codec as the text of
/// its exact decimal expansion, and is taken where the codec reads that text
/// as the same double.
pub open spec fn coord_taken(c: Coord) -> bool {
    c.finite() ==> json_parse(expansion_text(c)) == Some(JsonDoc::Number(JsonNum::Float(c.bits)))
}

/// Whether the codec takes every coordinate of an atom.
pub open spec fn atom_taken(a: AtomView) -> bool {
    coord_taken(a.x) && coord_taken(a.y) && coord_taken(a.z)
}

/// Whether the codec takes every coordinate of every atom.
pub open spec fn all_taken(atoms: Seq<AtomView>) -> bool {
    forall|i: int| 0 <= i < atoms.len() ==> atom_taken(#[trigger] atoms[i])
}

/// Whether the atom at a position is the first with a coordinate that the
/// codec does not take.
pub open spec fn first_not_taken(atoms: Seq<AtomView>, at: int) -> bool {
    &&& 0 <= at < atoms.len()
    &&& !atom_taken(atoms[at])
    &&& forall|k: int| 0 <= k < at ==> atom_taken(#[trigger] atoms[k])
}

/// Whether writing a molecule as a document ends in `r`: in the document of
/// the molecule where the codec takes every coordinate, and else in the
/// first atom of which it does not take one.
pub open spec fn written_as_doc(m: MoleculeView, r: Result<JsonDoc, WriteFault>) -> bool {
    match r {
        Ok(doc) => all_taken(m.atoms) && doc == molecule_doc(m),
        Err(WriteFault::Coordinate { atom }) => first_not_taken(m.atoms, atom as int),
        Err(_) => false,
    }
}

/// The string member of that name.
pub open spec fn text_at(doc: JsonDoc, key: Seq<char>) -> Option<Seq<char>> {
    match doc.member(key) {
        Some(m) => m.text(),
        None => None,
    }
}

/// The number member of that name, as a coordinate. A number written as an
/// integer counts: it is read as the nearest double.
pub open spec fn coord_at(doc: JsonDoc, key: Seq<char>) -> Option<Coord> {
    match doc.member(key) {
        Some(m) => match m.float() {
            Some(bits) => Some(Coord { bits }),
            None => None,
        },
        None => None,
    }
}

/// The member of that name, as a position: a non-negative integer that fits.
pub open spec fn index_at(doc: JsonDoc, key: Seq<char>) -> Option<usize> {
    match doc.member(key) {
        Some(m) => match m.uint() {
            Some(n) => if n <= usize::MAX {
                Some(n as usize)
            } else {
                None
            },
            None => None,
        },
        None => None,
    }
}

/// The document as a byte: a non-negative integer up to 255.
pub open spec fn byte_of(doc: JsonDoc) -> Option<u8> {
    match doc.uint() {
        Some(n) => if n <= 255 {
            Some(n as u8)
        } else {
            None
        },
        None => None,
    }
}

/// The member of that name, as a byte.
pub open spec fn byte_at(doc: JsonDoc, key: Seq<char>) -> Option<u8> {
    match doc.member(key) {
        Some(m) => byte_of(m),
        None => None,
    }
}

/// The member of that name, as a colour: an array of exactly three bytes.
pub open spec fn color_at(doc: JsonDoc, key: Seq<char>) -> Option<(u8, u8, u8)> {
    match doc.member(key) {
        Some(m) => match m.items() {
            Some(items) => if items.len() == 3 {
                match (byte_of(items[0]), byte_of(items[1]), byte_of(items[2])) {
                    (Some(r), Some(g), Some(b)) => Some((r, g, b)),
                    _ => None,
                }
            } else {
                None
            },
            None => None,
        },
        None => None,
    }
}

/// The atom that a document describes. The colour is taken as written; it is
/// not held against the table.
pub open spec fn atom_of_doc(doc: JsonDoc) -> Option<AtomView> {
    match (
        text_at(doc, "element"@),
        coord_at(doc, "x"@),
        coord_at(doc, "y"@),
        coord_at(doc, "z"@),
        color_at(doc, "color"@),
    ) {
        (Some(element), Some(x), Some(y), Some(z), Some(color)) => Some(
            AtomView { element, x, y, z, color },
        ),
        _ => None,
    }
}

/// The bond that a document describes.
pub open spec fn bond_of_doc(doc: JsonDoc) -> Option<Bond> {
    match (index_at(doc, "atom1_idx"@), index_at(doc, "atom2_idx"@), byte_at(doc, "bond_type"@)) {
        (Some(atom1_idx), Some(atom2_idx), Some(bond_type)) => Some(
            Bond { atom1_idx, atom2_idx, bond_type },
        ),
        _ => None,
    }
}

/// What a sequence of documents describes, item by item: all the items, or
/// the position of the first one that describes nothing.
pub open spec fn each_of_docs<T>(docs: Seq<JsonDoc>, item: spec_fn(JsonDoc) -> Option<T>) -> Result<
    Seq<T>,
    int,
>
    decreases docs.len(),
{
    if docs.len() == 0 {
        Ok(Seq::empty())
    } else {
        match each_of_docs(docs.drop_last(), item) {
            Err(at) => Err(at),
            Ok(before) => match item(docs.last()) {
                Some(t) => Ok(before.push(t)),
                None => Err(docs.len() - 1),
            },
        }
    }
}

/// The atoms that a sequence of documents describes.
pub open spec fn atoms_of_docs(docs: Seq<JsonDoc>) -> Result<Seq<AtomView>, int> {
    each_of_docs(docs, |d: JsonDoc| atom_of_doc(d))
}

/// The bonds that a sequence of documents describes.
pub open spec fn bonds_of_docs(docs: Seq<JsonDoc>) -> Result<Seq<Bond>, int> {
    each_of_docs(docs, |d: JsonDoc| bond_of_doc(d))
}

/// The molecule that a document describes, or the first fault in it: the
/// name is looked at first, then the atoms in their order, then the bonds.
pub open spec fn molecule_of_doc(doc: JsonDoc) -> Result<MoleculeView, ReadFault> {
    match text_at(doc, "name"@) {
        None => Err(ReadFault::Name),
        Some(name) => match doc.member("atoms"@) {
            None => Err(ReadFault::Atoms),
            Some(a) => match a.items() {
                None => Err(ReadFault::Atoms),
                Some(atom_docs) => match atoms_of_docs(atom_docs) {
                    Err(at) => Err(ReadFault::Atom { index: at as usize }),
                    Ok(atoms) => match doc.member("bonds"@) {
                        None => Err(ReadFault::Bonds),
                        Some(b) => match b.items() {
                            None => Err(ReadFault::Bonds),
                            Some(bond_docs) => match bonds_of_docs(bond_docs) {
                                Err(at) => Err(ReadFault::Bond { index: at as usize }),
                                Ok(bonds) => Ok(MoleculeView { name, atoms, bonds }),
                            },
                        },
                    },
                },
            },
        },
    }
}

/// The molecule that a text describes, or the first fault in it.
pub open spec fn molecule_of_text(text: Seq<char>) -> Result<MoleculeView, ReadFault> {
    match json_parse(text) {
        None => Err(ReadFault::Syntax),
        Some(doc) => molecule_of_doc(doc),
    }
}

/// Whether writing a molecule as text ends in `r`. The text is the one that
/// the codec prints the document of the molecule as, and where every
/// coordinate is a number it is a text that is read back as the molecule.
/// The faults, in the order in which they are looked for: the first atom of
/// which the codec does not take a coordinate; the codec not printing; the
/// text not being read back.
pub open spec fn written_as_text(m: MoleculeView, r: Result<Seq<char>, WriteFault>) -> bool {
    match r {
        Ok(text) => {
            &&& all_taken(m.atoms)
            &&& json_print(molecule_doc(m)) == Some(text)
            &&& m.finite() ==> molecule_of_text(text) == Ok::<MoleculeView, ReadFault>(m)
        },
        Err(WriteFault::Coordinate { atom }) => first_not_taken(m.atoms, atom as int),
        Err(WriteFault::Print) => all_taken(m.atoms) && json_print(molecule_doc(m)) is None,
        Err(WriteFault::ReadBack) => {
            &&& all_taken(m.atoms)
            &&& m.finite()
            &&& json_print(molecule_doc(m)) matches Some(text)
            &&& molecule_of_text(text) != Ok::<MoleculeView, ReadFault>(m)
        },
    }
}

/// The words that go with a fault of writing. Where the codec did not
/// print, the words are its own.
pub open spec fn write_fault_text(fault: WriteFault) -> Seq<char> {
    match fault {
        WriteFault::Coordinate { .. } => "coordinate not taken as a number"@,
        WriteFault::Print => "document not printed"@,
        WriteFault::ReadBack => "text not read back as the molecule"@,
    }
}

/// The names of the members of an atom are five different names.
pub proof fn lemma_atom_names()
    ensures
        "element"@ != "x"@,
        "element"@ != "y"@,
        "element"@ != "z"@,
        "element"@ != "color"@,
        "x"@ != "y"@,
        "x"@ != "z"@,
        "x"@ != "color"@,
        "y"@ != "z"@,
        "y"@ != "color"@,
        "z"@ != "color"@,
{
    reveal_strlit("element");
    reveal_strlit("x");
    reveal_strlit("y");
    reveal_strlit("z");
    reveal_strlit("color");
    assert("element"@[0] != "color"@[0]);
    assert("x"@[0] != "y"@[0]);
    assert("x"@[0] != "z"@[0]);
    assert("y"@[0] != "z"@[0]);
}

/// The names of the members of a bond are three different names.
pub proof fn lemma_bond_names()
    ensures
        "atom1_idx"@ != "atom2_idx"@,
        "atom1_idx"@ != "bond_type"@,
        "atom2_idx"@ != "bond_type"@,
{
    reveal_strlit("atom1_idx");
    reveal_strlit("atom2_idx");
    reveal_strlit("bond_type");
    assert("atom1_idx"@[4] != "atom2_idx"@[4]);
    assert("atom1_idx"@[0] != "bond_type"@[0]);
    assert("atom2_idx"@[0] != "bond_type"@[0]);
}

/// The names of the members of a molecule are three different names.
pub proof fn lemma_molecule_names()
    ensures
        "name"@ != "atoms"@,
        "name"@ != "bonds"@,
        "atoms"@ != "bonds"@,
{
    reveal_strlit("name");
    reveal_strlit("atoms");
    reveal_strlit("bonds");
    assert("atoms"@[0] != "bonds"@[0]);
}

/// Among the members of an object, a name that no earlier member has finds
/// the member that has it.
pub proof fn lemma_member_found(members: Seq<(Seq<char>, JsonDoc)>, at: int)
    requires
        0 <= at < members.len(),
        forall|k: int| 0 <= k < at ==> members[k].0 != members[at].0,
    ensures
        members_get(members, members[at].0) == Some(members[at].1),
    decreases at,
{
    if at > 0 {
        let rest = members.drop_first();
        assert(forall|k: int| 0 <= k < at - 1 ==> rest[k] == members[k + 1]);
        lemma_member_found(rest, at - 1);
    }
}

/// An atom without an infinity or a NaN is read back from its document.
pub proof fn lemma_atom_read_back(a: AtomView)
    requires
        a.finite(),
    ensures
        atom_of_doc(atom_doc(a)) == Some(a),
{
    lemma_atom_names();
    let members = atom_doc(a)->Object_0;
    lemma_member_found(members, 0);
    lemma_member_found(members, 1);
    lemma_member_found(members, 2);
    lemma_member_found(members, 3);
    lemma_member_found(members, 4);
}

/// A bond is read back from its document.
pub proof fn lemma_bond_read_back(b: Bond)
    ensures
        bond_of_doc(bond_doc(b)) == Some(b),
{
    lemma_bond_names();
    let members = bond_doc(b)->Object_0;
    lemma_member_found(members, 0);
    lemma_member_found(members, 1);
    lemma_member_found(members, 2);
}

/// Atoms without an infinity or a NaN are read back from their documents.
proof fn lemma_atoms_read_back(atoms: Seq<AtomView>)
    requires
        forall|i: int| 0 <= i < atoms.len() ==> (#[trigger] atoms[i]).finite(),
    ensures
        atoms_of_docs(atom_docs(atoms)) == Ok::<Seq<AtomView>, int>(atoms),
    decreases atoms.len(),
{
    if atoms.len() == 0 {
        assert(atoms =~= Seq::empty());
    } else {
        lemma_atoms_read_back(atoms.drop_last());
        lemma_atom_read_back(atoms.last());
        assert(atom_docs(atoms).drop_last() =~= atom_docs(atoms.drop_last()));
        assert(atoms.drop_last().push(atoms.last()) =~= atoms);
    }
}

/// Bonds are read back from their documents.
proof fn lemma_bonds_read_back(bonds: Seq<Bond>)
    ensures
        bonds_of_docs(bond_docs(bonds)) == Ok::<Seq<Bond>, int>(bonds),
    decreases bonds.len(),
{
    if bonds.len() == 0 {
        assert(bonds =~= Seq::empty());
    } else {
        lemma_bonds_read_back(bonds.drop_last());
        lemma_bond_read_back(bonds.last());
        assert(bond_docs(bonds).drop_last() =~= bond_docs(bonds.drop_last()));
        assert(bonds.drop_last().push(bonds.last()) =~= bonds);
    }
}

/// Reading undoes writing: the document of a molecule is read as that
/// molecule, with the same name, the same atoms in the same order, each with
/// its element, coordinates and colour, and the same bonds in the same
/// order. This holds of every molecule whose coordinates are numbers; an
/// infinity or a NaN is written as `null`, which is not read as a coordinate.
pub proof fn lemma_read_back(m: MoleculeView)
    requires
        m.finite(),
    ensures
        molecule_of_doc(molecule_doc(m)) == Ok::<MoleculeView, ReadFault>(m),
{
    lemma_molecule_names();
    let members = molecule_doc(m)->Object_0;
    lemma_member_found(members, 0);
    lemma_member_found(members, 1);
    lemma_member_found(members, 2);
    lemma_atoms_read_back(m.atoms);
    lemma_bonds_read_back(m.bonds);
}

/// A text that the codec reads as the document of a molecule whose
/// coordinates are numbers is read as that molecule.
pub proof fn lemma_text_read_back(m: MoleculeView, text: Seq<char>)
    requires
        m.finite(),
    ensures
        json_parse(text) == Some(molecule_doc(m)) ==> molecule_of_text(text) == Ok::<
            MoleculeView,
            ReadFault,
        >(m),
{
    lemma_read_back(m);
}

/// Reading undoes writing, text for text: a text that writing a molecule
/// gives is read as that molecule, for every molecule whose coordinates are
/// numbers.
pub proof fn lemma_written_is_read(m: MoleculeView, text: Seq<char>)
    ensures
        written_as_text(m, Ok(text)) && m.finite() ==> molecule_of_text(text) == Ok::<
            MoleculeView,
            ReadFault,
        >(m),
{
}

} // verus!
