//! The picture of a molecule, as the list of drawing steps that make it.
//!
//! The library does not draw. It decides what is drawn and in which order:
//! the surface is cleared, then every bond whose two positions name atoms is
//! drawn as a line, then every atom as a disc with its element symbol on it.
//! Bonds come first so that no line crosses a disc. The caller carries the
//! steps out, and places a point of the model on the surface at
//! `(width / 2 + x × SCALE, height / 2 + y × SCALE)`.

use crate::coord::Coord;
use crate::molecule::{AtomView, Bond, Molecule, MoleculeView};
use vstd::prelude::*;

verus! {

/// Surface units per unit of the model.
pub const SCALE: u32 = 100;

/// The width of the stroke of a bond.
pub const BOND_WIDTH: u32 = 2;

/// The grey of the stroke of a bond: each of its three channels.
pub const BOND_GRAY: u8 = 0x66;

/// The radius of the disc of an atom.
pub const ATOM_RADIUS: u32 = 20;

/// The size of the letters of a label.
pub const LABEL_SIZE: u32 = 14;

/// Where the text of a label starts, from the centre of the disc: across.
pub const LABEL_DX: i32 = -5;

/// Where the baseline of a label lies, from the centre of the disc: down.
pub const LABEL_DY: i32 = 5;

/// The size of a drawing surface, in pixels, as it is when a picture is made.
#[derive(Clone, Copy, Debug, PartialEq, Eq, Structural)]
pub struct Surface {
    pub width: u32,
    pub height: u32,
}

/// A point of the model. The third coordinate of an atom plays no part in
/// the picture.
#[derive(Clone, Copy, Debug, PartialEq, Eq, Structural)]
pub struct Point {
    pub x: Coord,
    pub y: Coord,
}

/// One drawing step.
#[derive(Clone, Debug)]
pub enum DrawCommand {
    /// Clear the rectangle of this size at the origin of the surface.
    Clear { width: u32, height: u32 },
    /// Stroke a straight line between the centres of two atoms.
    Line { from: Point, to: Point },
    /// Fill a disc around the centre of an atom, in the colour of the atom.
    Disc { center: Point, color: [u8; 3] },
    /// Write the element symbol of an atom, placed from the centre of its
    /// disc.
    Label { text: String, center: Point },
}

/// What a drawing step holds.
pub enum Step {
    Clear { width: u32, height: u32 },
    Line { from: Point, to: Point },
    Disc { center: Point, color: (u8, u8, u8) },
    Label { text: Seq<char>, center: Point },
}

impl View for DrawCommand {
    type V = Step;

    open spec fn view(&self) -> Step {
        match *self {
            DrawCommand::Clear { width, height } => Step::Clear { width, height },
            DrawCommand::Line { from, to } => Step::Line { from, to },
            DrawCommand::Disc { center, color } => Step::Disc {
                center,
                color: (color@[0], color@[1], color@[2]),
            },
            DrawCommand::Label { text, center } => Step::Label { text: text@, center },
        }
    }
}

/// What a sequence of drawing steps holds, step by step.
pub open spec fn step_views(commands: Seq<DrawCommand>) -> Seq<Step> {
    commands.map_values(|c: DrawCommand| c@)
}

/// Where an atom lies in the model.
pub open spec fn atom_point(a: AtomView) -> Point {
    Point { x: a.x, y: a.y }
}

/// The line of a bond, if both its positions name atoms.
pub open spec fn bond_line(atoms: Seq<AtomView>, b: Bond) -> Option<Step> {
    if b.atom1_idx < atoms.len() && b.atom2_idx < atoms.len() {
        Some(
            Step::Line {
                from: atom_point(atoms[b.atom1_idx as int]),
                to: atom_point(atoms[b.atom2_idx as int]),
            },
        )
    } else {
        None
    }
}

/// The lines of the bonds, in the order of the bonds. A bond with a position
/// that names no atom leaves no line.
pub open spec fn bond_lines(atoms: Seq<AtomView>, bonds: Seq<Bond>) -> Seq<Step> {
    bonds.filter_map(|b: Bond| bond_line(atoms, b))
}

/// The discs and labels of the atoms, in the order of the atoms: for each
/// atom its disc, then its label.
pub open spec fn atom_marks(atoms: Seq<AtomView>) -> Seq<Step> {
    Seq::new(
        2 * atoms.len(),
        |i: int|
            if i % 2 == 0 {
                Step::Disc { center: atom_point(atoms[i / 2]), color: atoms[i / 2].color }
            } else {
                Step::Label { text: atoms[i / 2].element, center: atom_point(atoms[i / 2]) }
            },
    )
}

/// The steps that show a molecule, or the lack of one, on a surface.
pub open spec fn render_plan(molecule: Option<MoleculeView>, surface: Surface) -> Seq<Step> {
    let clear = seq![Step::Clear { width: surface.width, height: surface.height }];
    match molecule {
        None => clear,
        Some(m) => clear + bond_lines(m.atoms, m.bonds) + atom_marks(m.atoms),
    }
}

/// The steps that show a molecule, or the lack of one, on a surface.
pub fn plan(molecule: Option<&Molecule>, surface: Surface) -> (commands: Vec<DrawCommand>)
    ensures
        step_views(commands@) == render_plan(
            match molecule {
                Some(m) => Some(m@),
                None => None,
            },
            surface,
        ),
{
    let mut commands: Vec<DrawCommand> = Vec::new();
    commands.push(DrawCommand::Clear { width: surface.width, height: surface.height });
    let ghost clear = seq![Step::Clear { width: surface.width, height: surface.height }];
    assert(step_views(commands@) =~= clear);
    let mol = match molecule {
        Some(m) => m,
        None => { return commands; },
    };
    let ghost atoms = mol@.atoms;
    let ghost bonds = mol@.bonds;
    let n = mol.atoms.len();
    let mut i: usize = 0;
    assert(bonds.take(0) =~= Seq::empty());
    while i < mol.bonds.len()
        invariant
            i <= mol.bonds.len(),
            n == mol.atoms.len(),
            atoms == mol@.atoms,
            bonds == mol@.bonds,
            step_views(commands@) == clear + bond_lines(atoms, bonds.take(i as int)),
        decreases mol.bonds.len() - i,
    {
        let b = mol.bonds[i];
        let ghost before = step_views(commands@);
        assert(bonds.take(i + 1).drop_last() =~= bonds.take(i as int));
        assert(bonds.take(i + 1).last() == b);
        if b.atom1_idx < n && b.atom2_idx < n {
            let from = Point { x: mol.atoms[b.atom1_idx].x, y: mol.atoms[b.atom1_idx].y };
            let to = Point { x: mol.atoms[b.atom2_idx].x, y: mol.atoms[b.atom2_idx].y };
            commands.push(DrawCommand::Line { from, to });
            assert(step_views(commands@) =~= before.push(Step::Line { from, to }));
            assert(bond_line(atoms, b) == Some(Step::Line { from, to }));
        }
        assert(step_views(commands@) =~= clear + bond_lines(atoms, bonds.take(i + 1)));
        i += 1;
    }
    assert(bonds.take(i as int) =~= bonds);
    let ghost lines = step_views(commands@);
    let mut k: usize = 0;
    while k < n
        invariant
            k <= n,
            n == mol.atoms.len(),
            atoms == mol@.atoms,
            step_views(commands@) == lines + atom_marks(atoms).take(2 * k),
        decreases n - k,
    {
        let a = &mol.atoms[k];
        let center = Point { x: a.x, y: a.y };
        let ghost before = step_views(commands@);
        commands.push(DrawCommand::Disc { center, color: a.color });
        commands.push(DrawCommand::Label { text: a.element.clone(), center });
        assert(atoms[k as int] == a@);
        assert(step_views(commands@) =~= before.push(
            Step::Disc { center, color: a@.color },
        ).push(Step::Label { text: a@.element, center }));
        assert(atom_marks(atoms).take(2 * (k + 1)) =~= atom_marks(atoms).take(2 * k).push(
            atom_marks(atoms)[2 * k],
        ).push(atom_marks(atoms)[2 * k + 1]));
        k += 1;
    }
    assert(atom_marks(atoms).take(2 * n) =~= atom_marks(atoms));
    commands
}

/// A bond with a position that names no atom leaves no trace in the
/// picture: the steps are those of the molecule without that bond.
pub proof fn lemma_stray_bond_skipped(m: MoleculeView, at: int, surface: Surface)
    requires
        0 <= at < m.bonds.len(),
        m.bonds[at].atom1_idx >= m.atoms.len() || m.bonds[at].atom2_idx >= m.atoms.len(),
    ensures
        render_plan(Some(m), surface) == render_plan(
            Some(MoleculeView { bonds: m.bonds.remove(at), ..m }),
            surface,
        ),
{
    let line = |b: Bond| bond_line(m.atoms, b);
    let head = m.bonds.take(at);
    let one = seq![m.bonds[at]];
    let tail = m.bonds.skip(at + 1);
    assert(m.bonds =~= head + one + tail);
    assert(m.bonds.remove(at) =~= head + tail);
    lemma_filter_map_add(head + one, tail, line);
    lemma_filter_map_add(head, one, line);
    lemma_filter_map_add(head, tail, line);
    assert(one.drop_last() =~= Seq::<Bond>::empty());
    assert(one.drop_last().filter_map(line) =~= Seq::<Step>::empty());
    assert(line(one.last()) is None);
    assert(one.filter_map(line) =~= Seq::<Step>::empty());
    assert(m.bonds.filter_map(line) =~= m.bonds.remove(at).filter_map(line));
}

/// Every step among the lines of the bonds is a line.
proof fn lemma_lines_are_lines(atoms: Seq<AtomView>, bonds: Seq<Bond>)
    ensures
        forall|i: int|
            0 <= i < bond_lines(atoms, bonds).len() ==> #[trigger] bond_lines(atoms, bonds)[i]
                is Line,
    decreases bonds.len(),
{
    if bonds.len() > 0 {
        lemma_lines_are_lines(atoms, bonds.drop_last());
        let line = |b: Bond| bond_line(atoms, b);
        assert(bond_lines(atoms, bonds.drop_last()) == bonds.drop_last().filter_map(line));
    }
}

/// Bonds are drawn before atoms, so no line crosses a disc or a label: in
/// the picture of a molecule no disc and no label comes before a line.
pub proof fn lemma_lines_first(m: MoleculeView, surface: Surface)
    ensures
        forall|i: int, j: int|
            0 <= i < j < render_plan(Some(m), surface).len() && render_plan(Some(m), surface)[j]
                is Line ==> !(render_plan(Some(m), surface)[i] is Disc) && !(render_plan(
                Some(m),
                surface,
            )[i] is Label),
{
    let steps = render_plan(Some(m), surface);
    let lines = bond_lines(m.atoms, m.bonds);
    let marks = atom_marks(m.atoms);
    lemma_lines_are_lines(m.atoms, m.bonds);
    assert forall|i: int, j: int| 0 <= i < j < steps.len() && steps[j] is Line implies !(steps[i]
        is Disc) && !(steps[i] is Label) by {
        if j >= 1 + lines.len() {
            assert(steps[j] == marks[j - 1 - lines.len()]);
        }
        if i >= 1 {
            assert(steps[i] == lines[i - 1]);
        }
    }
}

/// What is kept of two sequences laid end to end is what is kept of the
/// first, then what is kept of the second.
proof fn lemma_filter_map_add<A, B>(a: Seq<A>, b: Seq<A>, f: spec_fn(A) -> Option<B>)
    ensures
        (a + b).filter_map(f) == a.filter_map(f) + b.filter_map(f),
    decreases b.len(),
{
    if b.len() == 0 {
        assert(a + b =~= a);
        assert(a.filter_map(f) + b.filter_map(f) =~= a.filter_map(f));
    } else {
        lemma_filter_map_add(a, b.drop_last(), f);
        assert((a + b).drop_last() =~= a + b.drop_last());
        assert((a + b).last() == b.last());
        match f(b.last()) {
            Some(x) => {
                assert((a.filter_map(f) + b.drop_last().filter_map(f)) + seq![x] =~= a.filter_map(f)
                    + (b.drop_last().filter_map(f) + seq![x]));
            },
            None => {},
        }
    }
}

} // verus!
