use vstd::prelude::*;
use volatile::Volatile;
use crate::cell::{cell_of, lemma_cell_of_word_of, word_of, ScreenChar};

verus! {

pub const BUFFER_HEIGHT: usize = 25;
pub const BUFFER_WIDTH: usize = 80;

/// `volatile::Volatile`: a cell whose every access is a volatile load or
/// store. Opaque here; `cell_value` names the word it holds.
#[verifier::external_type_specification]
#[verifier::external_body]
#[verifier::reject_recursive_types(T)]
pub struct ExVolatile<T: Copy>(Volatile<T>);

/// The word that a volatile cell holds.
pub uninterp spec fn cell_value(v: Volatile<u16>) -> u16;

/// Relies on `Volatile::read`: one volatile load of the wrapped word.
#[verifier::external_body]
fn load(v: &Volatile<u16>) -> (r: u16)
    ensures
        r == cell_value(*v),
{
    v.read()
}

/// Relies on `Volatile::write`: one volatile store of `x` into the wrapped word.
#[verifier::external_body]
fn store(v: &mut Volatile<u16>, x: u16)
    ensures
        cell_value(*final(v)) == x,
{
    v.write(x)
}

/// The screen that a grid of volatile cells shows, row by row.
pub open spec fn frame_of(cells: [[Volatile<u16>; BUFFER_WIDTH]; BUFFER_HEIGHT]) -> Seq<Seq<ScreenChar>> {
    Seq::new(
        BUFFER_HEIGHT as nat,
        |r: int| Seq::new(BUFFER_WIDTH as nat, |c: int| cell_of(cell_value(cells@[r]@[c]))),
    )
}

/// A view onto the text-mode frame buffer. Each read and each write of a cell
/// is a single volatile access of its 16-bit word.
pub struct Buffer {
    cells: &'static mut [[Volatile<u16>; BUFFER_WIDTH]; BUFFER_HEIGHT],
}

impl View for Buffer {
    type V = Seq<Seq<ScreenChar>>;

    closed spec fn view(&self) -> Seq<Seq<ScreenChar>> {
        frame_of(*self.cells)
    }
}

/// A grid of `BUFFER_HEIGHT` rows of `BUFFER_WIDTH` cells each.
pub open spec fn is_frame(f: Seq<Seq<ScreenChar>>) -> bool {
    &&& f.len() == BUFFER_HEIGHT
    &&& forall|r: int| 0 <= r < BUFFER_HEIGHT ==> (#[trigger] f[r]).len() == BUFFER_WIDTH
}

impl Buffer {
    /// Binds a view to a grid of cells, which it then uses for its whole life.
    pub fn new(cells: &'static mut [[Volatile<u16>; BUFFER_WIDTH]; BUFFER_HEIGHT]) -> (r: Buffer)
        ensures
            r@ == frame_of(*old(cells)),
    {
        Buffer { cells }
    }

    /// The view is always a full grid of cells.
    pub proof fn lemma_is_frame(&self)
        ensures
            is_frame(self@),
    {
    }

    pub fn read(&self, row: usize, col: usize) -> (r: ScreenChar)
        requires
            row < BUFFER_HEIGHT,
            col < BUFFER_WIDTH,
        ensures
            r == self@[row as int][col as int],
    {
        ScreenChar::from_word(load(&self.cells[row][col]))
    }

    pub fn write(&mut self, row: usize, col: usize, c: ScreenChar)
        requires
            row < BUFFER_HEIGHT,
            col < BUFFER_WIDTH,
        ensures
            final(self)@ == old(self)@.update(row as int, old(self)@[row as int].update(col as int, c)),
    {
        let w = c.to_word();
        store(&mut self.cells[row][col], w);
        proof {
            lemma_cell_of_word_of(c);
        }
        assert(self@ =~~= old(self)@.update(row as int, old(self)@[row as int].update(col as int, c)));
    }
}

} // verus!
