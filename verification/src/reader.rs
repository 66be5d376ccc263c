//! Reading a molecule from JSON.
//!
//! The codec reads the text as a document. What the document says is then
//! looked up member by member: the name first, then the atoms in their
//! order, then the bonds, and the first fault ends the reading. Members that
//! the format does not name are passed over.

use crate::coord::Coord;
use crate::format::{
    atom_of_doc, atoms_of_docs, bond_of_doc, bonds_of_docs, byte_at, byte_of, color_at, coord_at,
    each_of_docs, fault_text, index_at, molecule_of_doc, molecule_of_text, text_at, ReadFault,
};
use crate::json::{
    as_float_bits, as_items, as_text, as_uint, json_model, member, models,
    parse_value, JsonDoc,
};
use crate::molecule::{atom_views, Atom, AtomView, Bond, Molecule, MoleculeView};
use vstd::prelude::*;
use vstd::string::StringExecFns;

verus! {

/// A text that could not be read as a molecule: the fault, and words for it.
/// For a syntax fault the words are the codec's own.
#[derive(Clone, Debug)]
pub struct ParseError {
    pub fault: ReadFault,
    pub detail: String,
}

/// A fault at a position stays the first fault when more documents follow.
proof fn lemma_first_fault_stays<T>(
    docs: Seq<JsonDoc>,
    item: spec_fn(JsonDoc) -> Option<T>,
    upto: int,
    at: int,
)
    requires
        0 <= upto <= docs.len(),
        each_of_docs(docs.take(upto), item) == Err::<Seq<T>, int>(at),
    ensures
        each_of_docs(docs, item) == Err::<Seq<T>, int>(at),
    decreases docs.len() - upto,
{
    if upto == docs.len() {
        assert(docs.take(upto) =~= docs);
    } else {
        assert(docs.take(upto + 1).drop_last() =~= docs.take(upto));
        lemma_first_fault_stays(docs, item, upto + 1, at);
    }
}

/// One more document that describes an item lengthens what was read.
proof fn lemma_next_item<T>(
    docs: Seq<JsonDoc>,
    item: spec_fn(JsonDoc) -> Option<T>,
    upto: int,
    before: Seq<T>,
)
    requires
        0 <= upto < docs.len(),
        each_of_docs(docs.take(upto), item) == Ok::<Seq<T>, int>(before),
    ensures
        each_of_docs(docs.take(upto + 1), item) == match item(docs[upto]) {
            Some(t) => Ok::<Seq<T>, int>(before.push(t)),
            None => Err::<Seq<T>, int>(upto),
        },
{
    assert(docs.take(upto + 1).drop_last() =~= docs.take(upto));
    assert(docs.take(upto + 1).last() == docs[upto]);
}

/// The string member of that name.
fn text_field(v: &serde_json::Value, key: &str) -> (r: Option<String>)
    ensures
        match r {
            Some(s) => text_at(json_model(*v), key@) == Some(s@),
            None => text_at(json_model(*v), key@) is None,
        },
{
    match member(v, key) {
        Some(m) => match as_text(m) {
            Some(s) => Some(String::from_str(s)),
            None => None,
        },
        None => None,
    }
}

/// The number member of that name, as a coordinate.
fn coord_field(v: &serde_json::Value, key: &str) -> (r: Option<Coord>)
    ensures
        r == coord_at(json_model(*v), key@),
{
    match member(v, key) {
        Some(m) => match as_float_bits(m) {
            Some(bits) => Some(Coord { bits }),
            None => None,
        },
        None => None,
    }
}

/// The member of that name, as a position.
fn index_field(v: &serde_json::Value, key: &str) -> (r: Option<usize>)
    ensures
        r == index_at(json_model(*v), key@),
{
    match member(v, key) {
        Some(m) => match as_uint(m) {
            Some(n) => if n <= usize::MAX as u64 {
                Some(n as usize)
            } else {
                None
            },
            None => None,
        },
        None => None,
    }
}

/// The value as a byte.
fn byte_value(v: &serde_json::Value) -> (r: Option<u8>)
    ensures
        r == byte_of(json_model(*v)),
{
    match as_uint(v) {
        Some(n) => if n <= 255 {
            Some(n as u8)
        } else {
            None
        },
        None => None,
    }
}

/// The member of that name, as a byte.
fn byte_field(v: &serde_json::Value, key: &str) -> (r: Option<u8>)
    ensures
        r == byte_at(json_model(*v), key@),
{
    match member(v, key) {
        Some(m) => byte_value(m),
        None => None,
    }
}

/// The member of that name, as a colour.
fn color_field(v: &serde_json::Value, key: &str) -> (r: Option<[u8; 3]>)
    ensures
        match r {
            Some(c) => color_at(json_model(*v), key@) == Some((c@[0], c@[1], c@[2])),
            None => color_at(json_model(*v), key@) is None,
        },
{
    let items = match member(v, key) {
        Some(m) => match as_items(m) {
            Some(items) => items,
            None => { return None; },
        },
        None => { return None; },
    };
    if items.len() != 3 {
        return None;
    }
    match (byte_value(&items[0]), byte_value(&items[1]), byte_value(&items[2])) {
        (Some(r), Some(g), Some(b)) => Some([r, g, b]),
        _ => None,
    }
}

/// Reads one atom.
fn atom_from_value(v: &serde_json::Value) -> (r: Option<Atom>)
    ensures
        match r {
            Some(a) => atom_of_doc(json_model(*v)) == Some(a@),
            None => atom_of_doc(json_model(*v)) is None,
        },
{
    let element = match text_field(v, "element") {
        Some(s) => s,
        None => { return None; },
    };
    let x = match coord_field(v, "x") {
        Some(c) => c,
        None => { return None; },
    };
    let y = match coord_field(v, "y") {
        Some(c) => c,
        None => { return None; },
    };
    let z = match coord_field(v, "z") {
        Some(c) => c,
        None => { return None; },
    };
    let color = match color_field(v, "color") {
        Some(c) => c,
        None => { return None; },
    };
    Some(Atom { element, x, y, z, color })
}

/// Reads one bond.
fn bond_from_value(v: &serde_json::Value) -> (r: Option<Bond>)
    ensures
        r == bond_of_doc(json_model(*v)),
{
    let atom1_idx = match index_field(v, "atom1_idx") {
        Some(i) => i,
        None => { return None; },
    };
    let atom2_idx = match index_field(v, "atom2_idx") {
        Some(i) => i,
        None => { return None; },
    };
    let bond_type = match byte_field(v, "bond_type") {
        Some(b) => b,
        None => { return None; },
    };
    Some(Bond { atom1_idx, atom2_idx, bond_type })
}

impl ParseError {
    /// The error for a fault of the document, with the words that go with it.
    pub fn of_fault(fault: ReadFault) -> (e: ParseError)
        ensures
            e.fault == fault,
            e.detail@ == fault_text(fault),
    {
        let detail = match fault {
            ReadFault::Syntax => String::from_str("not a JSON document"),
            ReadFault::Name => String::from_str("missing or malformed field `name`"),
            ReadFault::Atoms => String::from_str("missing or malformed field `atoms`"),
            ReadFault::Atom { .. } => String::from_str("malformed atom"),
            ReadFault::Bonds => String::from_str("missing or malformed field `bonds`"),
            ReadFault::Bond { .. } => String::from_str("malformed bond"),
        };
        ParseError { fault, detail }
    }
}

impl Molecule {
    /// Reads a molecule from a JSON document.
    #[verifier::loop_isolation(false)]
    pub fn from_value(v: &serde_json::Value) -> (r: Result<Molecule, ParseError>)
        ensures
            match r {
                Ok(m) => molecule_of_doc(json_model(*v)) == Ok::<MoleculeView, ReadFault>(m@),
                Err(e) => molecule_of_doc(json_model(*v)) == Err::<MoleculeView, ReadFault>(e.fault)
                    && e.detail@ == fault_text(e.fault),
            },
    {
        let name = match text_field(v, "name") {
            Some(s) => s,
            None => { return Err(ParseError::of_fault(ReadFault::Name)); },
        };
        let atom_items = match member(v, "atoms") {
            Some(a) => match as_items(a) {
                Some(items) => items,
                None => { return Err(ParseError::of_fault(ReadFault::Atoms)); },
            },
            None => { return Err(ParseError::of_fault(ReadFault::Atoms)); },
        };
        let ghost atom_docs = models(atom_items@);
        let mut atoms: Vec<Atom> = Vec::new();
        let mut i: usize = 0;
        assert(atom_docs.take(0) =~= Seq::empty());
        assert(atom_views(atoms@) =~= Seq::empty());
        while i < atom_items.len()
            invariant
                i <= atom_items.len(),
                atom_docs == models(atom_items@),
                atoms_of_docs(atom_docs.take(i as int)) == Ok::<Seq<AtomView>, int>(
                    atom_views(atoms@),
                ),
            decreases atom_items.len() - i,
        {
            proof {
                lemma_next_item(
                    atom_docs,
                    |d: JsonDoc| atom_of_doc(d),
                    i as int,
                    atom_views(atoms@),
                );
            }
            match atom_from_value(&atom_items[i]) {
                Some(a) => {
                    let ghost before = atom_views(atoms@);
                    atoms.push(a);
                    assert(atom_views(atoms@) =~= before.push(a@));
                },
                None => {
                    proof {
                        lemma_first_fault_stays(
                            atom_docs,
                            |d: JsonDoc| atom_of_doc(d),
                            i as int + 1,
                            i as int,
                        );
                    }
                    return Err(ParseError::of_fault(ReadFault::Atom { index: i }));
                },
            }
            i += 1;
        }
        assert(atom_docs.take(i as int) =~= atom_docs);
        let bond_items = match member(v, "bonds") {
            Some(b) => match as_items(b) {
                Some(items) => items,
                None => { return Err(ParseError::of_fault(ReadFault::Bonds)); },
            },
            None => { return Err(ParseError::of_fault(ReadFault::Bonds)); },
        };
        let ghost bond_docs = models(bond_items@);
        let mut bonds: Vec<Bond> = Vec::new();
        let mut j: usize = 0;
        assert(bond_docs.take(0) =~= Seq::empty());
        while j < bond_items.len()
            invariant
                j <= bond_items.len(),
                bond_docs == models(bond_items@),
                bonds_of_docs(bond_docs.take(j as int)) == Ok::<Seq<Bond>, int>(bonds@),
            decreases bond_items.len() - j,
        {
            proof {
                lemma_next_item(bond_docs, |d: JsonDoc| bond_of_doc(d), j as int, bonds@);
            }
            match bond_from_value(&bond_items[j]) {
                Some(b) => {
                    bonds.push(b);
                },
                None => {
                    proof {
                        lemma_first_fault_stays(
                            bond_docs,
                            |d: JsonDoc| bond_of_doc(d),
                            j as int + 1,
                            j as int,
                        );
                    }
                    return Err(ParseError::of_fault(ReadFault::Bond { index: j }));
                },
            }
            j += 1;
        }
        assert(bond_docs.take(j as int) =~= bond_docs);
        Ok(Molecule { name, atoms, bonds })
    }

    /// Reads a molecule from JSON text. Where the text is no JSON at all the
    /// words of the error are the codec's; for a fault of the document they
    /// are those of [`fault_text`].
    pub fn from_json(json: &str) -> (r: Result<Molecule, ParseError>)
        ensures
            match r {
                Ok(m) => molecule_of_text(json@) == Ok::<MoleculeView, ReadFault>(m@),
                Err(e) => molecule_of_text(json@) == Err::<MoleculeView, ReadFault>(e.fault) && (e.fault
                    != ReadFault::Syntax ==> e.detail@ == fault_text(e.fault)),
            },
    {
        match parse_value(json) {
            Ok(v) => Self::from_value(&v),
            Err(e) => Err(ParseError { fault: ReadFault::Syntax, detail: e.to_string() }),
        }
    }
}

} // verus!
