//! The viewer: the molecule that is shown, if there is one, and the name of
//! the surface on which it is shown.
//!
//! A viewer is either empty or loaded. Loading a molecule, from text or the
//! sample, replaces what was loaded before; a text that cannot be read
//! changes nothing. The viewer does not reach the surface itself: the caller
//! looks the surface up by `canvas_id`, tells [`MolViewer::render`] what it
//! found, and carries out the steps it gets back.

use crate::coord::Coord;
use crate::format::{
    fault_text, lemma_read_back, molecule_doc, molecule_of_doc, molecule_of_text,
    written_as_text, ReadFault,
};
use crate::molecule::{lemma_color_table, AtomView, Bond, Molecule, MoleculeView};
use crate::reader::ParseError;
use crate::render::{plan, render_plan, step_views, DrawCommand, Step, Surface};
use crate::writer::EncodeError;
use vstd::prelude::*;
use vstd::string::StringExecFns;

verus! {

/// Why an operation of the viewer failed.
#[derive(Clone, Debug)]
pub enum ViewerError {
    /// The text is not a molecule in the exchange format.
    Parse(ParseError),
    /// The caller found no surface of the viewer's name to draw on.
    SurfaceUnavailable,
    /// Nothing is loaded.
    NoMoleculeLoaded,
    /// The loaded molecule could not be written.
    Serialization(EncodeError),
}

/// The words that go with a failure of the viewer.
pub open spec fn viewer_error_text(e: ViewerError) -> Seq<char> {
    match e {
        ViewerError::Parse(p) => "Failed to parse molecule: "@ + p.detail@,
        ViewerError::SurfaceUnavailable => "Drawing surface not found"@,
        ViewerError::NoMoleculeLoaded => "No molecule loaded"@,
        ViewerError::Serialization(s) => "Failed to serialize: "@ + s.detail@,
    }
}

impl ViewerError {
    /// The words that go with the failure.
    pub fn message(&self) -> (s: String)
        ensures
            s@ == viewer_error_text(*self),
    {
        match self {
            ViewerError::Parse(p) => String::from_str("Failed to parse molecule: ").concat(
                p.detail.as_str(),
            ),
            ViewerError::SurfaceUnavailable => String::from_str("Drawing surface not found"),
            ViewerError::NoMoleculeLoaded => String::from_str("No molecule loaded"),
            ViewerError::Serialization(e) => String::from_str("Failed to serialize: ").concat(
                e.detail.as_str(),
            ),
        }
    }
}

/// Shows one molecule at a time on a named surface.
pub struct MolViewer {
    molecule: Option<Molecule>,
    canvas_id: String,
}

/// What a viewer holds.
pub struct ViewerView {
    pub molecule: Option<MoleculeView>,
    pub canvas_id: Seq<char>,
}

/// The bit pattern of the double 0.96.
pub const WATER_H1_X: u64 = 0x3fee_b851_eb85_1eb8;

/// The bit pattern of the double -0.24.
pub const WATER_H2_X: u64 = 0xbfce_b851_eb85_1eb8;

/// The bit pattern of the double 0.93.
pub const WATER_H2_Y: u64 = 0x3fed_c28f_5c28_f5c3;

/// The sample: a water molecule, with the oxygen at the origin, the two
/// hydrogens at (0.96, 0, 0) and (-0.24, 0.93, 0), and a single bond from the
/// oxygen to each.
pub open spec fn water() -> MoleculeView {
    let zero = Coord { bits: 0 };
    MoleculeView {
        name: "Water (H2O)"@,
        atoms: seq![
            AtomView { element: "O"@, x: zero, y: zero, z: zero, color: (255, 13, 13) },
            AtomView {
                element: "H"@,
                x: Coord { bits: WATER_H1_X },
                y: zero,
                z: zero,
                color: (255, 255, 255),
            },
            AtomView {
                element: "H"@,
                x: Coord { bits: WATER_H2_X },
                y: Coord { bits: WATER_H2_Y },
                z: zero,
                color: (255, 255, 255),
            },
        ],
        bonds: seq![
            Bond { atom1_idx: 0, atom2_idx: 1, bond_type: 1 },
            Bond { atom1_idx: 0, atom2_idx: 2, bond_type: 1 },
        ],
    }
}

/// Every coordinate of the sample is a number, so the sample is read back
/// from its document.
pub proof fn lemma_water_read_back()
    ensures
        water().finite(),
        molecule_of_doc(molecule_doc(water())) == Ok::<MoleculeView, ReadFault>(water()),
{
    assert((0u64 >> 52) & 0x7ff == 0) by (bit_vector);
    assert((0x3fee_b851_eb85_1eb8u64 >> 52) & 0x7ff == 0x3fe) by (bit_vector);
    assert((0xbfce_b851_eb85_1eb8u64 >> 52) & 0x7ff == 0x3fc) by (bit_vector);
    assert((0x3fed_c28f_5c28_f5c3u64 >> 52) & 0x7ff == 0x3fe) by (bit_vector);
    lemma_read_back(water());
}

impl View for MolViewer {
    type V = ViewerView;

    closed spec fn view(&self) -> ViewerView {
        ViewerView {
            molecule: match self.molecule {
                Some(m) => Some(m@),
                None => None,
            },
            canvas_id: self.canvas_id@,
        }
    }
}

impl MolViewer {
    /// An empty viewer for the surface of that name.
    pub fn new(canvas_id: String) -> (viewer: MolViewer)
        ensures
            viewer@ == (ViewerView { molecule: None, canvas_id: canvas_id@ }),
    {
        MolViewer { molecule: None, canvas_id }
    }

    /// The name of the surface.
    pub fn canvas_id(&self) -> (id: &str)
        ensures
            id@ == self@.canvas_id,
    {
        self.canvas_id.as_str()
    }

    /// The loaded molecule, if there is one.
    pub fn molecule(&self) -> (r: Option<&Molecule>)
        ensures
            match r {
                Some(m) => self@.molecule == Some(m@),
                None => self@.molecule is None,
            },
    {
        self.molecule.as_ref()
    }

    /// Loads the molecule that a JSON text describes, in place of what was
    /// loaded. A text that describes none leaves the viewer as it was.
    pub fn load_molecule(&mut self, json: String) -> (r: Result<(), ViewerError>)
        ensures
            match molecule_of_text(json@) {
                Ok(m) => r is Ok && final(self)@ == (ViewerView {
                    molecule: Some(m),
                    ..old(self)@
                }),
                Err(fault) => r matches Err(ViewerError::Parse(e)) && e.fault == fault && (fault
                    != ReadFault::Syntax ==> e.detail@ == fault_text(fault)) && *final(self)
                    == *old(self),
            },
    {
        match Molecule::from_json(json.as_str()) {
            Ok(mol) => {
                self.molecule = Some(mol);
                Ok(())
            },
            Err(e) => Err(ViewerError::Parse(e)),
        }
    }

    /// Loads the sample, a water molecule, in place of what was loaded.
    pub fn create_water_molecule(&mut self)
        ensures
            final(self)@ == (ViewerView { molecule: Some(water()), ..old(self)@ }),
    {
        let zero = Coord::from_bits(0);
        let mut mol = Molecule::new(String::from_str("Water (H2O)"));
        mol.add_atom(String::from_str("O"), zero, zero, zero);
        mol.add_atom(String::from_str("H"), Coord::from_bits(WATER_H1_X), zero, zero);
        mol.add_atom(
            String::from_str("H"),
            Coord::from_bits(WATER_H2_X),
            Coord::from_bits(WATER_H2_Y),
            zero,
        );
        mol.add_bond(0, 1, 1);
        mol.add_bond(0, 2, 1);
        proof {
            reveal_strlit("O");
            reveal_strlit("H");
            assert("O"@ =~= seq!['O']);
            assert("H"@ =~= seq!['H']);
            lemma_color_table();
            assert(mol@.atoms =~= water().atoms);
            assert(mol@.bonds =~= water().bonds);
        }
        self.molecule = Some(mol);
    }

    /// The steps that show what is loaded on the surface that the caller
    /// found, or a failure where it found none. With nothing loaded the one
    /// step is to clear the surface.
    pub fn render(&self, surface: Option<Surface>) -> (r: Result<Vec<DrawCommand>, ViewerError>)
        ensures
            match surface {
                Some(s) => r matches Ok(commands) && step_views(commands@) == render_plan(
                    self@.molecule,
                    s,
                ),
                None => r matches Err(ViewerError::SurfaceUnavailable),
            },
            surface matches Some(s) ==> (self@.molecule is None ==> (r matches Ok(commands)
                && step_views(commands@) == seq![
                Step::Clear { width: s.width, height: s.height },
            ])),
    {
        match surface {
            Some(s) => Ok(plan(self.molecule.as_ref(), s)),
            None => Err(ViewerError::SurfaceUnavailable),
        }
    }

    /// The loaded molecule as JSON text.
    pub fn get_molecule_json(&self) -> (r: Result<String, ViewerError>)
        ensures
            match self@.molecule {
                Some(m) => match r {
                    Ok(text) => written_as_text(m, Ok(text@)),
                    Err(e) => e matches ViewerError::Serialization(s) && written_as_text(
                        m,
                        Err(s.fault),
                    ),
                },
                None => r matches Err(ViewerError::NoMoleculeLoaded),
            },
    {
        match &self.molecule {
            Some(mol) => match mol.to_json() {
                Ok(text) => Ok(text),
                Err(e) => Err(ViewerError::Serialization(e)),
            },
            None => Err(ViewerError::NoMoleculeLoaded),
        }
    }
}

} // verus!
