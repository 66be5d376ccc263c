//! The molecule model: a name, atoms in the order in which they were added,
//! and bonds that refer to atoms by position.

use crate::coord::Coord;
use vstd::prelude::*;
use vstd::string::StrSliceExecFns;

verus! {

/// An atom: an element symbol, a position, and the colour it is drawn in.
/// The colour is looked up once, when the atom is added, and kept.
#[derive(Clone, Debug)]
pub struct Atom {
    pub element: String,
    pub x: Coord,
    pub y: Coord,
    pub z: Coord,
    pub color: [u8; 3],
}

/// What an atom holds.
pub struct AtomView {
    pub element: Seq<char>,
    pub x: Coord,
    pub y: Coord,
    pub z: Coord,
    pub color: (u8, u8, u8),
}

impl View for Atom {
    type V = AtomView;

    open spec fn view(&self) -> AtomView {
        AtomView {
            element: self.element@,
            x: self.x,
            y: self.y,
            z: self.z,
            color: (self.color@[0], self.color@[1], self.color@[2]),
        }
    }
}

impl AtomView {
    /// Whether every coordinate of the atom is a number: none is an infinity
    /// or a NaN.
    pub open spec fn finite(self) -> bool {
        self.x.finite() && self.y.finite() && self.z.finite()
    }
}

impl Atom {
    /// Whether two atoms hold the same: element, coordinates bit for bit,
    /// and colour.
    pub fn same(&self, other: &Atom) -> (r: bool)
        ensures
            r == (self@ == other@),
    {
        self.element == other.element && self.x == other.x && self.y == other.y && self.z
            == other.z && self.color[0] == other.color[0] && self.color[1] == other.color[1]
            && self.color[2] == other.color[2]
    }

    /// Whether every coordinate of the atom is a number.
    pub fn is_finite(&self) -> (r: bool)
        ensures
            r == self@.finite(),
    {
        self.x.is_finite() && self.y.is_finite() && self.z.is_finite()
    }
}

/// A bond between the atoms at two positions of the atom sequence. The
/// positions are kept as given: nothing says that atoms stand there.
#[derive(Clone, Copy, Debug, PartialEq, Eq, Structural)]
pub struct Bond {
    pub atom1_idx: usize,
    pub atom2_idx: usize,
    /// 1 for a single bond, 2 for a double bond, 3 for a triple bond.
    pub bond_type: u8,
}

/// What a sequence of atoms holds, atom by atom.
pub open spec fn atom_views(atoms: Seq<Atom>) -> Seq<AtomView> {
    atoms.map_values(|a: Atom| a@)
}

/// A molecule. Atoms are only ever appended, so a position keeps naming the
/// same atom for as long as the molecule lives.
#[derive(Clone, Debug)]
pub struct Molecule {
    pub name: String,
    pub atoms: Vec<Atom>,
    pub bonds: Vec<Bond>,
}

/// What a molecule holds.
pub struct MoleculeView {
    pub name: Seq<char>,
    pub atoms: Seq<AtomView>,
    pub bonds: Seq<Bond>,
}

impl MoleculeView {
    /// Whether every coordinate of every atom is a number.
    pub open spec fn finite(self) -> bool {
        forall|i: int| 0 <= i < self.atoms.len() ==> (#[trigger] self.atoms[i]).finite()
    }
}

impl View for Molecule {
    type V = MoleculeView;

    open spec fn view(&self) -> MoleculeView {
        MoleculeView {
            name: self.name@,
            atoms: atom_views(self.atoms@),
            bonds: self.bonds@,
        }
    }
}

/// The colour of the fallback entry of the table: deep pink.
pub open spec fn default_color() -> (u8, u8, u8) {
    (255, 20, 147)
}

/// The colour table. Symbols are compared letter by letter, capitals and
/// small letters apart; a symbol that is not listed gets the fallback colour.
pub open spec fn element_color(element: Seq<char>) -> (u8, u8, u8) {
    if element == seq!['H'] {
        (255, 255, 255)
    } else if element == seq!['C'] {
        (144, 144, 144)
    } else if element == seq!['N'] {
        (48, 80, 248)
    } else if element == seq!['O'] {
        (255, 13, 13)
    } else if element == seq!['S'] {
        (255, 255, 48)
    } else if element == seq!['P'] {
        (255, 128, 0)
    } else if element == seq!['F'] {
        (144, 224, 80)
    } else if element == seq!['C', 'l'] {
        (31, 240, 31)
    } else if element == seq!['B', 'r'] {
        (166, 41, 41)
    } else {
        default_color()
    }
}

/// The table entry by entry: each listed symbol has its colour.
pub proof fn lemma_color_table()
    ensures
        element_color(seq!['H']) == (255u8, 255u8, 255u8),
        element_color(seq!['C']) == (144u8, 144u8, 144u8),
        element_color(seq!['N']) == (48u8, 80u8, 248u8),
        element_color(seq!['O']) == (255u8, 13u8, 13u8),
        element_color(seq!['S']) == (255u8, 255u8, 48u8),
        element_color(seq!['P']) == (255u8, 128u8, 0u8),
        element_color(seq!['F']) == (144u8, 224u8, 80u8),
        element_color(seq!['C', 'l']) == (31u8, 240u8, 31u8),
        element_color(seq!['B', 'r']) == (166u8, 41u8, 41u8),
{
    assert(seq!['H'][0] == 'H');
    assert(seq!['C'][0] == 'C');
    assert(seq!['N'][0] == 'N');
    assert(seq!['O'][0] == 'O');
    assert(seq!['S'][0] == 'S');
    assert(seq!['P'][0] == 'P');
    assert(seq!['F'][0] == 'F');
    assert(seq!['C', 'l'].len() == 2);
    assert(seq!['B', 'r'].len() == 2);
    assert(seq!['C', 'l'][0] == 'C');
    assert(seq!['B', 'r'][0] == 'B');
}

/// A symbol that the table does not list has the fallback colour. Symbols
/// that differ from a listed one only in capitals are not listed.
pub proof fn lemma_color_fallback(element: Seq<char>)
    requires
        element != seq!['H'],
        element != seq!['C'],
        element != seq!['N'],
        element != seq!['O'],
        element != seq!['S'],
        element != seq!['P'],
        element != seq!['F'],
        element != seq!['C', 'l'],
        element != seq!['B', 'r'],
    ensures
        element_color(element) == default_color(),
{
}

impl Molecule {
    /// A molecule with the given name, without atoms and bonds.
    pub fn new(name: String) -> (m: Molecule)
        ensures
            m@ == (MoleculeView { name: name@, atoms: Seq::empty(), bonds: Seq::empty() }),
    {
        let m = Molecule { name, atoms: Vec::new(), bonds: Vec::new() };
        assert(m@.atoms =~= Seq::empty());
        m
    }

    /// Appends an atom. Any text is taken as an element symbol; the colour
    /// comes from the table.
    pub fn add_atom(&mut self, element: String, x: Coord, y: Coord, z: Coord)
        ensures
            final(self)@ == (MoleculeView {
                atoms: old(self)@.atoms.push(
                    AtomView { element: element@, x, y, z, color: element_color(element@) },
                ),
                ..old(self)@
            }),
    {
        let color = Self::element_to_color(element.as_str());
        self.atoms.push(Atom { element, x, y, z, color });
        assert(final(self)@.atoms =~= old(self)@.atoms.push(
            AtomView { element: element@, x, y, z, color: element_color(element@) },
        ));
    }

    /// Appends a bond as given. The positions are not held against the atoms
    /// that the molecule has.
    pub fn add_bond(&mut self, atom1_idx: usize, atom2_idx: usize, bond_type: u8)
        ensures
            final(self)@ == (MoleculeView {
                bonds: old(self)@.bonds.push(Bond { atom1_idx, atom2_idx, bond_type }),
                ..old(self)@
            }),
    {
        self.bonds.push(Bond { atom1_idx, atom2_idx, bond_type });
    }

    /// Whether two molecules hold the same: the name, the atoms in their
    /// order, and the bonds in their order.
    pub fn same(&self, other: &Molecule) -> (r: bool)
        ensures
            r == (self@ == other@),
    {
        if self.name != other.name || self.atoms.len() != other.atoms.len() || self.bonds.len()
            != other.bonds.len() {
            assert(self@.atoms.len() == self.atoms.len());
            assert(other@.atoms.len() == other.atoms.len());
            return false;
        }
        let mut i: usize = 0;
        while i < self.atoms.len()
            invariant
                i <= self.atoms.len(),
                self.atoms.len() == other.atoms.len(),
                forall|k: int| 0 <= k < i ==> self.atoms@[k]@ == other.atoms@[k]@,
            decreases self.atoms.len() - i,
        {
            if !self.atoms[i].same(&other.atoms[i]) {
                assert(self@.atoms[i as int] == self.atoms@[i as int]@);
                assert(other@.atoms[i as int] == other.atoms@[i as int]@);
                return false;
            }
            i += 1;
        }
        assert(self@.atoms =~= other@.atoms);
        let mut j: usize = 0;
        while j < self.bonds.len()
            invariant
                j <= self.bonds.len(),
                self.bonds.len() == other.bonds.len(),
                forall|k: int| 0 <= k < j ==> self.bonds@[k] == other.bonds@[k],
            decreases self.bonds.len() - j,
        {
            if self.bonds[j] != other.bonds[j] {
                return false;
            }
            j += 1;
        }
        assert(self@.bonds =~= other@.bonds);
        true
    }

    /// Whether every coordinate of every atom is a number: none is an
    /// infinity or a NaN.
    pub fn is_finite(&self) -> (r: bool)
        ensures
            r == self@.finite(),
    {
        let mut i: usize = 0;
        while i < self.atoms.len()
            invariant
                i <= self.atoms.len(),
                forall|k: int| 0 <= k < i ==> (#[trigger] self@.atoms[k]).finite(),
            decreases self.atoms.len() - i,
        {
            if !self.atoms[i].is_finite() {
                assert(self@.atoms[i as int] == self.atoms@[i as int]@);
                return false;
            }
            assert(self@.atoms[i as int] == self.atoms@[i as int]@);
            i += 1;
        }
        true
    }

    /// The colour that the table gives an element symbol.
    pub fn element_to_color(element: &str) -> (color: [u8; 3])
        ensures
            (color@[0], color@[1], color@[2]) == element_color(element@),
    {
        let n = element.unicode_len();
        if n == 1 {
            let c = element.get_char(0);
            assert(element@ =~= seq![c]);
            if c == 'H' {
                [255, 255, 255]
            } else if c == 'C' {
                [144, 144, 144]
            } else if c == 'N' {
                [48, 80, 248]
            } else if c == 'O' {
                [255, 13, 13]
            } else if c == 'S' {
                [255, 255, 48]
            } else if c == 'P' {
                [255, 128, 0]
            } else if c == 'F' {
                [144, 224, 80]
            } else {
                [255, 20, 147]
            }
        } else if n == 2 {
            let c0 = element.get_char(0);
            let c1 = element.get_char(1);
            assert(element@ =~= seq![c0, c1]);
            if c0 == 'C' && c1 == 'l' {
                [31, 240, 31]
            } else if c0 == 'B' && c1 == 'r' {
                [166, 41, 41]
            } else {
                [255, 20, 147]
            }
        } else {
            [255, 20, 147]
        }
    }
}

} // verus!
