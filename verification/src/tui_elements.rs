//! Terminal box drawing: border symbol sets and rectangle geometry.
//!
//! The geometry here is pure: a rectangle is rendered to a list of
//! line commands — where to move the cursor and which characters to
//! print — and the surrounding terminal layer performs the printing.

use vstd::prelude::*;

verus! {

/// A border style.
#[derive(Copy, Clone)]
pub enum BorderKind {
    Single,
    Double,
    Heavy,
}

impl BorderKind {
    /// The six border symbols of a style: vertical bar, horizontal
    /// bar, then the four corners clockwise from the top left.
    pub open spec fn spec_symbols(self) -> Seq<char> {
        match self {
            BorderKind::Heavy => seq!['\u{2503}', '\u{2501}', '\u{250f}', '\u{2513}', '\u{2517}', '\u{251b}'],
            BorderKind::Single => seq!['\u{2502}', '\u{2500}', '\u{250c}', '\u{2510}', '\u{2514}', '\u{2518}'],
            BorderKind::Double => seq!['\u{2551}', '\u{2550}', '\u{2554}', '\u{2557}', '\u{255a}', '\u{255d}'],
        }
    }

    pub fn get_symbols(&self) -> (r: Vec<char>)
        ensures
            r@ == self.spec_symbols(),
    {
        let r = match self {
            BorderKind::Heavy => vec!['┃', '━', '┏', '┓', '┗', '┛'],
            BorderKind::Single => vec!['│', '─', '┌', '┐', '└', '┘'],
            BorderKind::Double => vec!['║', '═', '╔', '╗', '╚', '╝'],
        };
        proof {
            assert(r@ =~= self.spec_symbols());
        }
        r
    }
}

/// One terminal line to draw: move to (x, y), print `start`, print
/// `mid` `mid_count` times, print `end`.
#[derive(Copy, Clone, PartialEq, Eq, Structural, Debug)]
pub struct TuiLine {
    pub x: u16,
    pub y: u16,
    pub start: char,
    pub mid: char,
    pub mid_count: u16,
    pub end: char,
}

/// An axis-aligned rectangle with a border style, from its top-left
/// to its bottom-right corner.
pub struct TuiRect {
    pub kind: BorderKind,
    pub from: (u16, u16),
    pub to: (u16, u16),
}

/// The line at row `i` of a rectangle border: the top edge, then the
/// vertical walls, then the bottom edge. `w` is the inner width.
pub open spec fn spec_rect_line(kind: BorderKind, from: (u16, u16), to: (u16, u16), i: int) -> TuiLine {
    let sym = kind.spec_symbols();
    let w = (to.0 - from.0 - 2) as u16;
    let h = to.1 - from.1 - 2;
    if i == 0 {
        TuiLine { x: from.0, y: from.1, start: sym[2], mid: sym[1], mid_count: w, end: sym[3] }
    } else if i <= h {
        TuiLine {
            x: from.0,
            y: (from.1 + i) as u16,
            start: sym[0],
            mid: ' ',
            mid_count: w,
            end: sym[0],
        }
    } else {
        TuiLine { x: from.0, y: to.1, start: sym[4], mid: sym[1], mid_count: w, end: sym[5] }
    }
}

impl TuiRect {
    /// The rectangle spans at least the four border cells each way.
    pub open spec fn wf(self) -> bool {
        &&& self.from.0 + 2 <= self.to.0
        &&& self.from.1 + 2 <= self.to.1
    }

    pub fn from_coords(kind: BorderKind, from: (u16, u16), to: (u16, u16)) -> (r: TuiRect)
        ensures
            r.kind == kind,
            r.from == from,
            r.to == to,
    {
        TuiRect { kind, from, to }
    }

    pub fn from_size(kind: BorderKind, pos: (u16, u16), size: (u16, u16)) -> (r: TuiRect)
        requires
            pos.0 + size.0 <= u16::MAX,
            pos.1 + size.1 <= u16::MAX,
        ensures
            r.kind == kind,
            r.from == pos,
            r.to == (((pos.0 + size.0) as u16), ((pos.1 + size.1) as u16)),
    {
        TuiRect { kind, from: pos, to: (pos.0 + size.0, pos.1 + size.1) }
    }

    /// Move the rectangle, keeping its size.
    pub fn set_pos(&mut self, pos: (u16, u16))
        requires
            old(self).from.0 <= old(self).to.0,
            old(self).from.1 <= old(self).to.1,
            pos.0 + old(self).to.0 - old(self).from.0 <= u16::MAX,
            pos.1 + old(self).to.1 - old(self).from.1 <= u16::MAX,
        ensures
            final(self).kind == old(self).kind,
            final(self).from == pos,
            final(self).to.0 == pos.0 + old(self).to.0 - old(self).from.0,
            final(self).to.1 == pos.1 + old(self).to.1 - old(self).from.1,
    {
        let sw = self.to.0 - self.from.0;
        let sh = self.to.1 - self.from.1;
        self.from = pos;
        self.to = (pos.0 + sw, pos.1 + sh);
    }

    /// Resize the rectangle, keeping its position.
    pub fn set_size(&mut self, size: (u16, u16))
        requires
            old(self).from.0 + size.0 <= u16::MAX,
            old(self).from.1 + size.1 <= u16::MAX,
        ensures
            final(self).kind == old(self).kind,
            final(self).from == old(self).from,
            final(self).to.0 == old(self).from.0 + size.0,
            final(self).to.1 == old(self).from.1 + size.1,
    {
        self.to.0 = self.from.0 + size.0;
        self.to.1 = self.from.1 + size.1;
    }

    /// The border of the rectangle as line commands: the top edge, one
    /// wall line per inner row, and the bottom edge.
    pub fn draw(&self) -> (r: Vec<TuiLine>)
        requires
            self.wf(),
        ensures
            r@.len() == self.to.1 - self.from.1,
            forall|i: int|
                0 <= i < r@.len() ==> r@[i] == spec_rect_line(self.kind, self.from, self.to, i),
    {
        Self::draw_rect(self.kind, self.from, self.to)
    }

    fn draw_rect(kind: BorderKind, from: (u16, u16), to: (u16, u16)) -> (r: Vec<TuiLine>)
        requires
            from.0 + 2 <= to.0,
            from.1 + 2 <= to.1,
        ensures
            r@.len() == to.1 - from.1,
            forall|i: int| 0 <= i < r@.len() ==> r@[i] == spec_rect_line(kind, from, to, i),
    {
        let symbols = kind.get_symbols();
        let pipe = symbols[0];
        let dash = symbols[1];
        let tlc = symbols[2];
        let trc = symbols[3];
        let blc = symbols[4];
        let brc = symbols[5];
        let w_repeat: u16 = to.0 - from.0 - 2;
        let h_repeat: u16 = to.1 - from.1 - 2;
        let mut r: Vec<TuiLine> = Vec::new();
        r.push(TuiLine { x: from.0, y: from.1, start: tlc, mid: dash, mid_count: w_repeat, end: trc });
        let mut i: u16 = 1;
        while i <= h_repeat
            invariant
                from.0 + 2 <= to.0,
                from.1 + 2 <= to.1,
                w_repeat == to.0 - from.0 - 2,
                h_repeat == to.1 - from.1 - 2,
                pipe == kind.spec_symbols()[0],
                dash == kind.spec_symbols()[1],
                tlc == kind.spec_symbols()[2],
                trc == kind.spec_symbols()[3],
                1 <= i <= h_repeat + 1,
                r@.len() == i,
                forall|j: int|
                    0 <= j < r@.len() ==> r@[j] == spec_rect_line(kind, from, to, j),
            decreases h_repeat + 1 - i,
        {
            r.push(
                TuiLine { x: from.0, y: from.1 + i, start: pipe, mid: ' ', mid_count: w_repeat, end: pipe },
            );
            i = i + 1;
        }
        r.push(TuiLine { x: from.0, y: to.1, start: blc, mid: dash, mid_count: w_repeat, end: brc });
        r
    }
}

} // verus!
