//! The tiled screen layout: nested horizontal and vertical splits that
//! divide a terminal region evenly among their children, bottoming out
//! in named panels.
//!
//! The layout is computed here; the terminal layer prints the line
//! commands and panel tags this module returns.

use vstd::prelude::*;

verus! {

broadcast use
    vstd::std_specs::vec::axiom_vec_index_decreases,
    vstd::seq::axiom_seq_index_decreases;

/// Direction a region is divided in.
pub enum TuiSplit {
    VSplit,
    HSplit,
}

/// One child of a split: a nested split, a named panel, or nothing.
pub enum TuiStructureLink {
    Structure(TuiStructure),
    Element(String),
    Empty,
}

/// A region divided evenly among its children.
pub struct TuiStructure {
    pub kind: TuiSplit,
    pub stuffs: Vec<TuiStructureLink>,
}

/// A placeholder for a richer panel abstraction.
pub struct TuiPanel {}

/// The whole tiled screen.
pub struct TuiTiles {
    pub structure: TuiStructure,
}

impl TuiTiles {
    /// Lay out the whole screen: a terminal under 30 by 15 cells is
    /// too small to tile and yields nothing; otherwise the structure
    /// fills the screen inside a one-cell margin, sparing the bottom
    /// rows for the command bar.
    pub fn draw(&self, w: u16, h: u16) -> (r: Option<Vec<PanelRect>>)
        ensures
            r is None <==> (w < 30 || h < 15),
            r matches Some(panels) ==> (self.structure.wf() ==> panels@
                == self.structure.spec_layout(1, w as int, 1, h - 2)),
            r matches Some(panels) ==> (self.structure.wf() ==> panels@.len()
                == self.structure.spec_panel_count()),
            r matches Some(panels) ==> forall|i: int|
                0 <= i < panels@.len() ==> panel_in_bounds(#[trigger] panels@[i], 1, w, 1, (h - 2) as u16),
    {
        if w < 30 || h < 15 {
            return None;
        }
        Some(self.structure.draw(1, w, 1, h - 2))
    }
}

/// A named panel placed at a concrete terminal region.
pub struct PanelRect {
    pub name: String,
    pub from: (u16, u16),
    pub to: (u16, u16),
}

/// A border style, as the view layer names them.
#[derive(Copy, Clone)]
pub enum BorderKind {
    Single,
    Double,
    Heavy,
}

impl BorderKind {
    /// The six border symbols of a style: vertical bar, horizontal
    /// bar, then the four corners clockwise from the top left.
    pub open spec fn spec_symbols(self) -> Seq<char> {
        match self {
            BorderKind::Heavy => seq!['\u{2503}', '\u{2501}', '\u{250f}', '\u{2513}', '\u{2517}', '\u{251b}'],
            BorderKind::Single => seq!['\u{2502}', '\u{2500}', '\u{250c}', '\u{2510}', '\u{2514}', '\u{2518}'],
            BorderKind::Double => seq!['\u{2551}', '\u{2550}', '\u{2554}', '\u{2557}', '\u{255a}', '\u{255d}'],
        }
    }

    pub fn get_symbols(&self) -> (r: Vec<char>)
        ensures
            r@ == self.spec_symbols(),
    {
        let r = match self {
            BorderKind::Heavy => vec!['┃', '━', '┏', '┓', '┗', '┛'],
            BorderKind::Single => vec!['│', '─', '┌', '┐', '└', '┘'],
            BorderKind::Double => vec!['║', '═', '╔', '╗', '╚', '╝'],
        };
        proof {
            assert(r@ =~= self.spec_symbols());
        }
        r
    }
}

/// How many named panels a child yields.
pub open spec fn spec_link_panels(link: TuiStructureLink) -> nat
    decreases link,
{
    match link {
        TuiStructureLink::Structure(s) => s.spec_panel_count(),
        TuiStructureLink::Element(_) => 1,
        TuiStructureLink::Empty => 0,
    }
}

/// How many named panels the first `n` children yield together.
pub open spec fn spec_links_panels(s: Seq<TuiStructureLink>, n: int) -> nat
    decreases s, n,
    when n <= s.len()
{
    if n <= 0 {
        0
    } else {
        spec_links_panels(s, n - 1) + spec_link_panels(s[n - 1])
    }
}

/// How many shares a split divides its axis into: one per child, but
/// never fewer than one.
pub open spec fn spec_splits(n: int) -> int {
    if n > 1 {
        n
    } else {
        1
    }
}

/// The region share child `ind` of `splits` receives inside the given
/// bounds: an even slice of the split axis, the full other axis, as
/// (left, right, top, bottom).
pub open spec fn spec_share(
    kind: TuiSplit,
    left: int,
    right: int,
    top: int,
    bottom: int,
    splits: int,
    ind: int,
) -> (int, int, int, int) {
    match kind {
        TuiSplit::HSplit => {
            let q = (bottom - top) / splits;
            (left, right, top + q * ind, top + q * (ind + 1))
        },
        TuiSplit::VSplit => {
            let q = (right - left) / splits;
            (left + q * ind, left + q * (ind + 1), top, bottom)
        },
    }
}

/// The panels a child yields in a region: a nested split lays itself
/// out there; a named panel fills it; an empty child yields nothing.
pub open spec fn spec_link_layout(
    link: TuiStructureLink,
    left: int,
    right: int,
    top: int,
    bottom: int,
) -> Seq<PanelRect>
    decreases link,
{
    match link {
        TuiStructureLink::Structure(s) => s.spec_layout(left, right, top, bottom),
        TuiStructureLink::Element(name) => seq![
            PanelRect {
                name,
                from: (left as u16, top as u16),
                to: (right as u16, bottom as u16),
            },
        ],
        TuiStructureLink::Empty => Seq::empty(),
    }
}

/// The panels the first `n` children yield, each in its even share.
pub open spec fn spec_links_layout(
    kind: TuiSplit,
    s: Seq<TuiStructureLink>,
    left: int,
    right: int,
    top: int,
    bottom: int,
    n: int,
) -> Seq<PanelRect>
    decreases s, n,
    when n <= s.len()
{
    if n <= 0 {
        Seq::empty()
    } else {
        let share = spec_share(kind, left, right, top, bottom, spec_splits(s.len() as int), n - 1);
        spec_links_layout(kind, s, left, right, top, bottom, n - 1) + spec_link_layout(
            s[n - 1],
            share.0,
            share.1,
            share.2,
            share.3,
        )
    }
}

/// A child is well formed.
pub open spec fn spec_link_wf(link: TuiStructureLink) -> bool
    decreases link,
{
    match link {
        TuiStructureLink::Structure(s) => s.wf(),
        TuiStructureLink::Element(_) => true,
        TuiStructureLink::Empty => true,
    }
}

/// A panel lies inside the given bounds.
pub open spec fn panel_in_bounds(p: PanelRect, left: u16, right: u16, top: u16, bottom: u16) -> bool {
    &&& left <= p.from.0 <= p.to.0 <= right
    &&& top <= p.from.1 <= p.to.1 <= bottom
}

impl TuiStructure {
    /// How many named panels the whole structure yields.
    pub open spec fn spec_panel_count(self) -> nat
        decreases self,
    {
        spec_links_panels(self.stuffs@, self.stuffs@.len() as int)
    }

    /// The whole layout of the structure in a region: every child in
    /// its even share of the split axis, nested splits flattened in
    /// child order.
    pub open spec fn spec_layout(self, left: int, right: int, top: int, bottom: int) -> Seq<
        PanelRect,
    >
        decreases self,
    {
        spec_links_layout(
            self.kind,
            self.stuffs@,
            left,
            right,
            top,
            bottom,
            self.stuffs@.len() as int,
        )
    }

    /// Every split has few enough children to share a terminal axis.
    pub open spec fn wf(self) -> bool
        decreases self,
    {
        &&& self.stuffs@.len() <= 0xFFFF
        &&& forall|i: int|
            0 <= i < self.stuffs@.len() ==> spec_link_wf(#[trigger] self.stuffs@[i])
    }

    /// Lay the structure out in the region from `left` to `right` and
    /// `top` to `bottom`: each child gets an even share of the split
    /// axis, and every panel of the result lies inside the region.
    pub fn draw(&self, left: u16, right: u16, top: u16, bottom: u16) -> (r: Vec<PanelRect>)
        requires
            left <= right,
            top <= bottom,
        ensures
            self.wf() ==> r@ == self.spec_layout(left as int, right as int, top as int, bottom as int),
            self.wf() ==> r@.len() == self.spec_panel_count(),
            forall|i: int|
                0 <= i < r@.len() ==> panel_in_bounds(#[trigger] r@[i], left, right, top, bottom),
        decreases self,
    {
        if self.stuffs.len() > 0xFFFF {
            return Vec::new();
        }
        let splits: usize = if self.stuffs.len() > 1 {
            self.stuffs.len()
        } else {
            1
        };
        let mut panels: Vec<PanelRect> = Vec::new();
        let n = self.stuffs.len();
        let mut ind: usize = 0;
        while ind < n
            invariant
                left <= right,
                top <= bottom,
                n == self.stuffs@.len(),
                ind <= n,
                n <= 0xFFFF,
                n <= 1 ==> splits == 1,
                n > 1 ==> splits == n,
                1 <= splits <= 0xFFFF,
                self.wf() ==> panels@ == spec_links_layout(
                    self.kind,
                    self.stuffs@,
                    left as int,
                    right as int,
                    top as int,
                    bottom as int,
                    ind as int,
                ),
                self.wf() ==> panels@.len() == spec_links_panels(self.stuffs@, ind as int),
                forall|i: int|
                    0 <= i < panels@.len() ==> panel_in_bounds(
                        #[trigger] panels@[i],
                        left,
                        right,
                        top,
                        bottom,
                    ),
            decreases n - ind,
        {
            let mut new_top: u16 = top;
            let mut new_bottom: u16 = bottom;
            let mut new_left: u16 = left;
            let mut new_right: u16 = right;
            match self.kind {
                TuiSplit::HSplit => {
                    let h_interval: u16 = (bottom - top) / (splits as u16);
                    proof {
                        lemma_share_in_range(
                            (bottom - top) as int,
                            splits as int,
                            ind as int,
                        );
                    }
                    new_top = top + h_interval * (ind as u16);
                    new_bottom = top + h_interval * (ind as u16 + 1);
                },
                TuiSplit::VSplit => {
                    let v_interval: u16 = (right - left) / (splits as u16);
                    proof {
                        lemma_share_in_range(
                            (right - left) as int,
                            splits as int,
                            ind as int,
                        );
                    }
                    new_left = left + v_interval * (ind as u16);
                    new_right = left + v_interval * (ind as u16 + 1);
                },
            }
            proof {
                assert((new_left as int, new_right as int, new_top as int, new_bottom as int)
                    == spec_share(
                    self.kind,
                    left as int,
                    right as int,
                    top as int,
                    bottom as int,
                    spec_splits(self.stuffs@.len() as int),
                    ind as int,
                ));
            }
            match &self.stuffs[ind] {
                TuiStructureLink::Structure(s) => {
                    proof {
                        assert(decreases_to!(self.stuffs => self.stuffs@[ind as int]));
                        assert(decreases_to!(self.stuffs@[ind as int] => *s));
                        if self.wf() {
                            assert(spec_link_wf(self.stuffs@[ind as int]));
                        }
                    }
                    let sub = s.draw(new_left, new_right, new_top, new_bottom);
                    let m = sub.len();
                    let mut k: usize = 0;
                    let ghost subv = sub@;
                    let mut sub = sub;
                    while k < m
                        invariant
                            left <= new_left <= new_right <= right,
                            top <= new_top <= new_bottom <= bottom,
                            m == subv.len(),
                            k <= m,
                            sub@ == subv.skip(k as int),
                            ind < n,
                            n == self.stuffs@.len(),
                            self.stuffs@[ind as int] is Structure,
                            self.wf() ==> subv.len() == spec_link_panels(self.stuffs@[ind as int]),
                            self.wf() ==> subv == spec_link_layout(
                                self.stuffs@[ind as int],
                                new_left as int,
                                new_right as int,
                                new_top as int,
                                new_bottom as int,
                            ),
                            self.wf() ==> panels@ == spec_links_layout(
                                self.kind,
                                self.stuffs@,
                                left as int,
                                right as int,
                                top as int,
                                bottom as int,
                                ind as int,
                            ) + subv.take(k as int),
                            self.wf() ==> panels@.len() == spec_links_panels(
                                self.stuffs@,
                                ind as int,
                            ) + k,
                            forall|i: int|
                                0 <= i < subv.len() ==> panel_in_bounds(
                                    #[trigger] subv[i],
                                    new_left,
                                    new_right,
                                    new_top,
                                    new_bottom,
                                ),
                            forall|i: int|
                                0 <= i < panels@.len() ==> panel_in_bounds(
                                    #[trigger] panels@[i],
                                    left,
                                    right,
                                    top,
                                    bottom,
                                ),
                        decreases m - k,
                    {
                        let p = sub.remove(0);
                        proof {
                            assert(p == subv[k as int]);
                            assert(sub@ =~= subv.skip(k as int + 1));
                            assert(subv.take(k as int).push(subv[k as int]) =~= subv.take(
                                k as int + 1,
                            ));
                        }
                        panels.push(p);
                        k = k + 1;
                    }
                    proof {
                        if self.wf() {
                            assert(subv.take(subv.len() as int) =~= subv);
                            assert(panels@ =~= spec_links_layout(
                                self.kind,
                                self.stuffs@,
                                left as int,
                                right as int,
                                top as int,
                                bottom as int,
                                ind as int + 1,
                            ));
                            assert(panels@.len() == spec_links_panels(
                                self.stuffs@,
                                ind as int + 1,
                            ));
                        }
                    }
                },
                TuiStructureLink::Element(name) => {
                    let p = PanelRect {
                        name: name.clone(),
                        from: (new_left, new_top),
                        to: (new_right, new_bottom),
                    };
                    let ghost gp = p;
                    panels.push(p);
                    proof {
                        if self.wf() {
                            assert(self.stuffs@[ind as int] == TuiStructureLink::Element(*name));
                            let share = spec_share(
                                self.kind,
                                left as int,
                                right as int,
                                top as int,
                                bottom as int,
                                spec_splits(self.stuffs@.len() as int),
                                ind as int,
                            );
                            assert(gp.name == *name && gp.from == (
                                share.0 as u16,
                                share.2 as u16,
                            ) && gp.to == (share.1 as u16, share.3 as u16));
                            assert(spec_link_layout(
                                self.stuffs@[ind as int],
                                share.0,
                                share.1,
                                share.2,
                                share.3,
                            ) =~= seq![gp]);
                            assert(spec_link_panels(self.stuffs@[ind as int]) == 1);
                            assert(panels@ =~= spec_links_layout(
                                self.kind,
                                self.stuffs@,
                                left as int,
                                right as int,
                                top as int,
                                bottom as int,
                                ind as int + 1,
                            ));
                            assert(panels@.len() == spec_links_panels(
                                self.stuffs@,
                                ind as int + 1,
                            ));
                        }
                    }
                },
                TuiStructureLink::Empty => {
                    proof {
                        if self.wf() {
                            assert(self.stuffs@[ind as int] is Empty);
                            let share = spec_share(
                                self.kind,
                                left as int,
                                right as int,
                                top as int,
                                bottom as int,
                                spec_splits(self.stuffs@.len() as int),
                                ind as int,
                            );
                            assert(spec_link_layout(
                                self.stuffs@[ind as int],
                                share.0,
                                share.1,
                                share.2,
                                share.3,
                            ) =~= Seq::<PanelRect>::empty());
                            assert(spec_link_panels(self.stuffs@[ind as int]) == 0);
                            assert(panels@ =~= spec_links_layout(
                                self.kind,
                                self.stuffs@,
                                left as int,
                                right as int,
                                top as int,
                                bottom as int,
                                ind as int + 1,
                            ));
                            assert(panels@.len() == spec_links_panels(
                                self.stuffs@,
                                ind as int + 1,
                            ));
                        }
                    }
                },
            }
            ind = ind + 1;
        }
        panels
    }
}

/// Splitting a span of `len` cells into `splits` even shares: share
/// `ind` starts at `(len / splits) * ind` and ends at
/// `(len / splits) * (ind + 1)`, within the span.
proof fn lemma_share_in_range(len: int, splits: int, ind: int)
    requires
        0 <= len,
        1 <= splits,
        0 <= ind < splits,
    ensures
        0 <= (len / splits) * ind <= (len / splits) * (ind + 1) <= len,
{
    let q = len / splits;
    vstd::arithmetic::div_mod::lemma_div_pos_is_pos(len, splits);
    if q == 0 {
        vstd::arithmetic::mul::lemma_mul_by_zero_is_zero(ind);
        vstd::arithmetic::mul::lemma_mul_by_zero_is_zero(ind + 1);
    } else {
        vstd::arithmetic::mul::lemma_mul_nonnegative(q, ind);
        vstd::arithmetic::mul::lemma_mul_left_inequality(q, ind, ind + 1);
        vstd::arithmetic::mul::lemma_mul_inequality(ind + 1, splits, q);
        vstd::arithmetic::div_mod::lemma_fundamental_div_mod(len, splits);
        vstd::arithmetic::div_mod::lemma_mod_bound(len, splits);
        vstd::arithmetic::mul::lemma_mul_is_commutative(splits, q);
        vstd::arithmetic::mul::lemma_mul_is_commutative(q, ind + 1);
    }
}

} // verus!
