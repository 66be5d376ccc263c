//! Writing a molecule as JSON.
//!
//! The document is built member by member and printed by the codec. The
//! codec takes a number as a double or as text. The library holds a
//! coordinate by its bits and has no doubles of its own, so a coordinate
//! reaches the codec as the text of its exact decimal expansion; the value
//! that the codec makes of it is used only if it holds the same double. The
//! codec then prints that double in its own, shortest form.
//!
//! What the codec printed is read back before it is handed out, so a text
//! that comes out of here is one that goes back in.

use crate::coord::Coord;
use crate::decimal::Decimal;
use crate::format::{
    atom_doc, atom_docs, atom_taken, bond_doc, bond_docs, byte_doc, color_doc, coord_doc,
    coord_taken, index_doc, lemma_atom_names, lemma_bond_names, lemma_molecule_names,
    write_fault_text, written_as_doc, written_as_text, WriteFault,
};
use crate::json::{
    array_value, as_float_bits, is_float, json_model, member_models, models, null_value,
    object_value, parse_value, print_value, text_value, uint_value, JsonDoc, JsonNum,
};
use crate::molecule::{Atom, Bond, Molecule};
use vstd::prelude::*;
use vstd::string::StringExecFns;

verus! {

/// A molecule that could not be written: the fault, and words for it. Where
/// the codec did not print, the words are its own.
#[derive(Clone, Debug)]
pub struct EncodeError {
    pub fault: WriteFault,
    pub detail: String,
}

/// Takes what the codec read from the decimal expansion of a coordinate, if
/// it is that coordinate: a number kept as a double, with the same bits.
pub fn accept_number(read: Result<serde_json::Value, serde_json::Error>, c: Coord) -> (r: Option<
    serde_json::Value,
>)
    ensures
        match r {
            Some(v) => read == Ok::<serde_json::Value, serde_json::Error>(v) && json_model(v)
                == JsonDoc::Number(JsonNum::Float(c.bits)),
            None => !(read matches Ok(w) && json_model(w) == JsonDoc::Number(
                JsonNum::Float(c.bits),
            )),
        },
{
    match read {
        Ok(v) => {
            if is_float(&v) {
                match as_float_bits(&v) {
                    Some(bits) => if bits == c.bits {
                        Some(v)
                    } else {
                        None
                    },
                    None => None,
                }
            } else {
                None
            }
        },
        Err(_) => None,
    }
}

/// A coordinate as a value, where the codec takes it.
fn coord_value(c: Coord) -> (r: Option<serde_json::Value>)
    ensures
        match r {
            Some(v) => coord_taken(c) && json_model(v) == coord_doc(c),
            None => !coord_taken(c),
        },
{
    match Decimal::of(c) {
        Some(d) => {
            let text = d.to_text();
            accept_number(parse_value(text.as_str()), c)
        },
        None => Some(null_value()),
    }
}

/// A colour as a value.
fn color_value(color: &[u8; 3]) -> (v: serde_json::Value)
    ensures
        json_model(v) == color_doc((color@[0], color@[1], color@[2])),
{
    let mut items: Vec<serde_json::Value> = Vec::new();
    items.push(uint_value(color[0] as u64));
    items.push(uint_value(color[1] as u64));
    items.push(uint_value(color[2] as u64));
    assert(models(items@) =~= seq![
        byte_doc(color@[0]),
        byte_doc(color@[1]),
        byte_doc(color@[2]),
    ]);
    array_value(items)
}

/// An atom as a value, where the codec takes each of its coordinates.
fn atom_value(a: &Atom) -> (r: Option<serde_json::Value>)
    ensures
        match r {
            Some(v) => atom_taken(a@) && json_model(v) == atom_doc(a@),
            None => !atom_taken(a@),
        },
{
    let x = match coord_value(a.x) {
        Some(v) => v,
        None => { return None; },
    };
    let y = match coord_value(a.y) {
        Some(v) => v,
        None => { return None; },
    };
    let z = match coord_value(a.z) {
        Some(v) => v,
        None => { return None; },
    };
    let mut fields: Vec<(String, serde_json::Value)> = Vec::new();
    fields.push((String::from_str("element"), text_value(a.element.clone())));
    fields.push((String::from_str("x"), x));
    fields.push((String::from_str("y"), y));
    fields.push((String::from_str("z"), z));
    fields.push((String::from_str("color"), color_value(&a.color)));
    proof {
        lemma_atom_names();
        assert(member_models(fields@) =~= seq![
            ("element"@, JsonDoc::Text(a@.element)),
            ("x"@, coord_doc(a@.x)),
            ("y"@, coord_doc(a@.y)),
            ("z"@, coord_doc(a@.z)),
            ("color"@, color_doc(a@.color)),
        ]);
    }
    Some(object_value(fields))
}

/// A bond as a value.
fn bond_value(b: &Bond) -> (v: serde_json::Value)
    ensures
        json_model(v) == bond_doc(*b),
{
    let mut fields: Vec<(String, serde_json::Value)> = Vec::new();
    fields.push((String::from_str("atom1_idx"), uint_value(b.atom1_idx as u64)));
    fields.push((String::from_str("atom2_idx"), uint_value(b.atom2_idx as u64)));
    fields.push((String::from_str("bond_type"), uint_value(b.bond_type as u64)));
    proof {
        lemma_bond_names();
        assert(member_models(fields@) =~= seq![
            ("atom1_idx"@, index_doc(b.atom1_idx)),
            ("atom2_idx"@, index_doc(b.atom2_idx)),
            ("bond_type"@, byte_doc(b.bond_type)),
        ]);
    }
    object_value(fields)
}

impl Molecule {
    /// Writes the molecule as a JSON document. An infinity or a NaN among
    /// the coordinates is written as `null`.
    pub fn to_value(&self) -> (r: Result<serde_json::Value, EncodeError>)
        ensures
            match r {
                Ok(v) => written_as_doc(self@, Ok(json_model(v))),
                Err(e) => written_as_doc(self@, Err(e.fault)) && e.detail@ == write_fault_text(
                    e.fault,
                ),
            },
    {
        let mut atoms: Vec<serde_json::Value> = Vec::new();
        let mut i: usize = 0;
        while i < self.atoms.len()
            invariant
                i <= self.atoms.len(),
                atoms.len() == i,
                forall|k: int|
                    0 <= k < i ==> json_model(#[trigger] atoms@[k]) == atom_doc(self.atoms@[k]@),
                forall|k: int| 0 <= k < i ==> atom_taken(#[trigger] self@.atoms[k]),
            decreases self.atoms.len() - i,
        {
            match atom_value(&self.atoms[i]) {
                Some(v) => atoms.push(v),
                None => {
                    return Err(
                        EncodeError {
                            fault: WriteFault::Coordinate { atom: i },
                            detail: String::from_str("coordinate not taken as a number"),
                        },
                    );
                },
            }
            i += 1;
        }
        let mut bonds: Vec<serde_json::Value> = Vec::new();
        let mut j: usize = 0;
        while j < self.bonds.len()
            invariant
                j <= self.bonds.len(),
                bonds.len() == j,
                forall|k: int|
                    0 <= k < j ==> json_model(#[trigger] bonds@[k]) == bond_doc(self.bonds@[k]),
            decreases self.bonds.len() - j,
        {
            bonds.push(bond_value(&self.bonds[j]));
            j += 1;
        }
        assert(models(atoms@) =~= atom_docs(self@.atoms));
        assert(models(bonds@) =~= bond_docs(self@.bonds));
        let mut fields: Vec<(String, serde_json::Value)> = Vec::new();
        fields.push((String::from_str("name"), text_value(self.name.clone())));
        fields.push((String::from_str("atoms"), array_value(atoms)));
        fields.push((String::from_str("bonds"), array_value(bonds)));
        proof {
            lemma_molecule_names();
            assert(member_models(fields@) =~= seq![
                ("name"@, JsonDoc::Text(self@.name)),
                ("atoms"@, JsonDoc::Array(atom_docs(self@.atoms))),
                ("bonds"@, JsonDoc::Array(bond_docs(self@.bonds))),
            ]);
        }
        Ok(object_value(fields))
    }

    /// Writes the molecule as JSON text: the document of the molecule,
    /// printed by the codec. Where every coordinate is a number, the text is
    /// handed out only after it was read back as the same molecule. An
    /// infinity or a NaN is written as `null`, which is not read as a
    /// coordinate; the text of a molecule that holds one is handed out as
    /// printed.
    pub fn to_json(&self) -> (r: Result<String, EncodeError>)
        ensures
            match r {
                Ok(text) => written_as_text(self@, Ok(text@)),
                Err(e) => written_as_text(self@, Err(e.fault)) && (e.fault != WriteFault::Print
                    ==> e.detail@ == write_fault_text(e.fault)),
            },
    {
        let v = match self.to_value() {
            Ok(v) => v,
            Err(e) => { return Err(e); },
        };
        let text = match print_value(&v) {
            Ok(text) => text,
            Err(e) => {
                return Err(EncodeError { fault: WriteFault::Print, detail: e.to_string() });
            },
        };
        if !self.is_finite() {
            return Ok(text);
        }
        let read_back = match Molecule::from_json(text.as_str()) {
            Ok(back) => self.same(&back),
            Err(_) => false,
        };
        if read_back {
            Ok(text)
        } else {
            Err(
                EncodeError {
                    fault: WriteFault::ReadBack,
                    detail: String::from_str("text not read back as the molecule"),
                },
            )
        }
    }
}

} // verus!
