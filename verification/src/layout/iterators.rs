//! # Step iterators
//!
//! A line of LEDs is `start + i * step` for `i` in `0..length`; a grid of LEDs
//! is `start + v * vertical_step + h * horizontal_step`, row by row, where
//! serpentine (zigzag) wiring walks every other row backwards. The iterators
//! here hand out those step counts; adding up the steps is left to the
//! caller's vector type.

use core::marker::PhantomData;
use vstd::arithmetic::div_mod::*;
use vstd::arithmetic::mul::*;
use vstd::prelude::*;

verus! {

/// The step counts `from, from + 1, ..., to - 1` (empty if `from >= to`).
pub open spec fn steps_between(from: nat, to: nat) -> Seq<nat> {
    if from < to {
        Seq::new((to - from) as nat, |j: int| (from + j) as nat)
    } else {
        Seq::empty()
    }
}

/// Iterator that produces values by stepping from a start point.
///
/// Used for generating points along lines and other linear patterns.
#[derive(Debug)]
pub struct StepIterator<Item, Scalar> {
    start: Item,
    step: Item,
    index: usize,
    length: usize,
    scalar: PhantomData<Scalar>,
}

impl<Item, Scalar> StepIterator<Item, Scalar> {
    /// The starting item.
    pub closed spec fn start_spec(&self) -> Item {
        self.start
    }

    /// The step between items.
    pub closed spec fn step_spec(&self) -> Item {
        self.step
    }

    /// The step counts of the items still to come.
    pub closed spec fn remaining(&self) -> Seq<nat> {
        steps_between(self.index as nat, self.length as nat)
    }

    /// Creates a new step iterator.
    ///
    /// # Arguments
    ///
    /// * `start` - The starting item
    /// * `step` - The step between items
    /// * `length` - The number of items to generate
    pub fn new(start: Item, step: Item, length: usize) -> (iter: Self)
        ensures
            iter.start_spec() == start,
            iter.step_spec() == step,
            iter.remaining() == steps_between(0, length as nat),
    {
        Self { start, step, index: 0, length, scalar: PhantomData }
    }

    /// The starting item.
    pub fn start(&self) -> (start: &Item)
        ensures
            *start == self.start_spec(),
    {
        &self.start
    }

    /// The step between items.
    pub fn step(&self) -> (step: &Item)
        ensures
            *step == self.step_spec(),
    {
        &self.step
    }

    /// The number of steps from the start to the next item (the next item
    /// is `start + i * step`), or `None` once all items are out.
    pub fn next_index(&mut self) -> (i: Option<usize>)
        ensures
            final(self).start_spec() == old(self).start_spec(),
            final(self).step_spec() == old(self).step_spec(),
            old(self).remaining().len() == 0 ==> i is None && final(self).remaining() == old(
                self,
            ).remaining(),
            old(self).remaining().len() > 0 ==> i is Some && i.unwrap() == old(self).remaining()[0]
                && final(self).remaining() == old(self).remaining().drop_first(),
    {
        if self.index >= self.length {
            return None;
        }
        let i = self.index;
        let ghost before = self.remaining();
        self.index = self.index + 1;
        assert(self.remaining() =~= before.drop_first());
        Some(i)
    }
}

/// Iterator that produces values by stepping from a start point along a
/// line.
#[derive(Debug)]
pub struct LineStepIterator<Item, Scalar> {
    start: Item,
    step: Item,
    index: usize,
    length: usize,
    scalar: PhantomData<Scalar>,
}

impl<Item, Scalar> LineStepIterator<Item, Scalar> {
    /// The starting item.
    pub closed spec fn start_spec(&self) -> Item {
        self.start
    }

    /// The step between items.
    pub closed spec fn step_spec(&self) -> Item {
        self.step
    }

    /// The step counts of the items still to come.
    pub closed spec fn remaining(&self) -> Seq<nat> {
        steps_between(self.index as nat, self.length as nat)
    }

    /// Creates a new step iterator.
    ///
    /// # Arguments
    ///
    /// - `start` - The starting item
    /// - `step` - The step between items
    /// - `length` - The number of items to generate
    pub fn new(start: Item, step: Item, length: usize) -> (iter: Self)
        ensures
            iter.start_spec() == start,
            iter.step_spec() == step,
            iter.remaining() == steps_between(0, length as nat),
    {
        Self { start, step, index: 0, length, scalar: PhantomData }
    }

    /// The starting item.
    pub fn start(&self) -> (start: &Item)
        ensures
            *start == self.start_spec(),
    {
        &self.start
    }

    /// The step between items.
    pub fn step(&self) -> (step: &Item)
        ensures
            *step == self.step_spec(),
    {
        &self.step
    }

    /// The number of steps from the start to the next item (the next item
    /// is `start + i * step`), or `None` once all items are out.
    pub fn next_index(&mut self) -> (i: Option<usize>)
        ensures
            final(self).start_spec() == old(self).start_spec(),
            final(self).step_spec() == old(self).step_spec(),
            old(self).remaining().len() == 0 ==> i is None && final(self).remaining() == old(
                self,
            ).remaining(),
            old(self).remaining().len() > 0 ==> i is Some && i.unwrap() == old(self).remaining()[0]
                && final(self).remaining() == old(self).remaining().drop_first(),
    {
        if self.index >= self.length {
            return None;
        }
        let i = self.index;
        let ghost before = self.remaining();
        self.index = self.index + 1;
        assert(self.remaining() =~= before.drop_first());
        Some(i)
    }
}

/// The (vertical, horizontal) step counts of the `k`-th point of a grid
/// with `horizontal_count` points per row: rows come one after the other,
/// and with serpentine wiring every odd row runs backwards.
pub open spec fn grid_position(k: nat, horizontal_count: nat, serpentine: bool) -> (nat, nat) {
    let row = k / horizontal_count;
    let col = k % horizontal_count;
    (row, if serpentine && row % 2 == 1 {
        (horizontal_count - 1 - col) as nat
    } else {
        col
    })
}


/// Without serpentine wiring a grid is walked row by row, each row from
/// column 0 up: the `k`-th point is in row `k / h`, column `k % h`, so that
/// `row * h + column == k`, and the next point in the same row is one
/// column further. With serpentine wiring even rows are walked the same
/// way and odd rows from the last column down.
pub proof fn lemma_grid_position_rows(k: nat, h: nat)
    requires
        h > 0,
    ensures
        grid_position(k, h, false) == (k / h, k % h),
        grid_position(k, h, false).0 * h + grid_position(k, h, false).1 == k,
        k % h + 1 < h ==> grid_position(k + 1, h, false) == (
            grid_position(k, h, false).0,
            grid_position(k, h, false).1 + 1,
        ),
        grid_position(k, h, true).0 == k / h,
        (k / h) % 2 == 0 ==> grid_position(k, h, true).1 == k % h,
        (k / h) % 2 == 1 ==> grid_position(k, h, true).1 + k % h == h - 1,
{
    lemma_fundamental_div_mod(k as int, h as int);
    let q = k / h;
    let r = k % h;
    assert(q * h + r == k) by (nonlinear_arith)
        requires
            k == h * q + r,
    ;
    if k % h + 1 < h {
        lemma_fundamental_div_mod_converse((k + 1) as int, h as int, (k / h) as int, (k % h + 1) as int);
    }
}

/// Every point of a grid with `vertical_count` rows of `horizontal_count`
/// points lies inside the grid, and no two points of the walk are the same:
/// the walk visits each of the `vertical_count * horizontal_count` grid
/// positions exactly once.
pub proof fn lemma_grid_walk_visits_each_position_once(
    horizontal_count: nat,
    vertical_count: nat,
    serpentine: bool,
)
    requires
        horizontal_count > 0,
    ensures
        forall|k: nat|
            k < vertical_count * horizontal_count ==> {
                let p = #[trigger] grid_position(k, horizontal_count, serpentine);
                p.0 < vertical_count && p.1 < horizontal_count
            },
        forall|j: nat, k: nat|
            j < k < vertical_count * horizontal_count ==> #[trigger] grid_position(
                j,
                horizontal_count,
                serpentine,
            ) != #[trigger] grid_position(k, horizontal_count, serpentine),
{
    let h = horizontal_count;
    assert forall|k: nat| k < vertical_count * h implies {
        let p = #[trigger] grid_position(k, h, serpentine);
        p.0 < vertical_count && p.1 < h
    } by {
        lemma_div_pos_is_pos(k as int, h as int);
        lemma_mod_bound(k as int, h as int);
        lemma_fundamental_div_mod(k as int, h as int);
        if k / h >= vertical_count {
            lemma_mul_inequality(vertical_count as int, (k / h) as int, h as int);
            lemma_mul_is_commutative(vertical_count as int, h as int);
            lemma_mul_is_commutative((k / h) as int, h as int);
        }
    }
    assert forall|j: nat, k: nat| j < k < vertical_count * h implies #[trigger] grid_position(
        j,
        h,
        serpentine,
    ) != #[trigger] grid_position(k, h, serpentine) by {
        lemma_mod_bound(j as int, h as int);
        lemma_mod_bound(k as int, h as int);
        lemma_fundamental_div_mod(j as int, h as int);
        lemma_fundamental_div_mod(k as int, h as int);
        if j / h == k / h {
            assert(j % h != k % h);
        }
    }
}

/// With serpentine wiring, each point of the walk is a neighbor of the one
/// before it: one step apart along one axis and none along the other.
pub proof fn lemma_serpentine_walk_steps_to_neighbors(k: nat, horizontal_count: nat)
    requires
        horizontal_count > 0,
    ensures
        ({
            let p = grid_position(k, horizontal_count, true);
            let q = grid_position(k + 1, horizontal_count, true);
            ||| (q.0 == p.0 && (q.1 == p.1 + 1 || p.1 == q.1 + 1))
            ||| (q.0 == p.0 + 1 && q.1 == p.1)
        }),
{
    let h = horizontal_count;
    let row = k / h;
    let col = k % h;
    lemma_mod_bound(k as int, h as int);
    lemma_fundamental_div_mod(k as int, h as int);
    if col + 1 < h {
        lemma_fundamental_div_mod_converse((k + 1) as int, h as int, row as int, (col + 1) as int);
    } else {
        assert(k + 1 == (row + 1) * h) by (nonlinear_arith)
            requires
                k == h * row + col,
                col + 1 == h,
        ;
        lemma_fundamental_div_mod_converse((k + 1) as int, h as int, (row + 1) as int, 0);
    }
}

/// Iterator for grid points with support for serpentine (zigzag) patterns.
#[derive(Debug)]
pub struct GridStepIterator<Item, Scalar> {
    start: Item,
    vertical_step: Item,
    horizontal_step: Item,
    horizontal_pixel_count: usize,
    vertical_pixel_count: usize,
    serpentine: bool,
    horizontal_index: usize,
    vertical_index: usize,
    scalar: PhantomData<Scalar>,
}

impl<Item, Scalar> GridStepIterator<Item, Scalar> {
    #[verifier::type_invariant]
    spec fn inv(self) -> bool {
        &&& self.vertical_index <= self.vertical_pixel_count
        &&& (self.horizontal_index < self.horizontal_pixel_count || self.horizontal_index == 0)
        &&& (self.vertical_index == self.vertical_pixel_count ==> self.horizontal_index == 0)
    }

    /// The starting point (origin) of the grid.
    pub closed spec fn start_spec(&self) -> Item {
        self.start
    }

    /// The vertical step between horizontal rows.
    pub closed spec fn vertical_step_spec(&self) -> Item {
        self.vertical_step
    }

    /// The horizontal step between vertical columns.
    pub closed spec fn horizontal_step_spec(&self) -> Item {
        self.horizontal_step
    }

    /// The (vertical, horizontal) step counts of the points still to come.
    ///
    /// A grid of `h` columns and `v` rows has `h * v` points: one with empty
    /// rows has none.
    pub closed spec fn remaining(&self) -> Seq<(nat, nat)> {
        let h_count = self.horizontal_pixel_count as nat;
        let v_count = self.vertical_pixel_count as nat;
        let pos = self.vertical_index * h_count + self.horizontal_index;
        if h_count > 0 && pos < v_count * h_count {
            Seq::new(
                (v_count * h_count - pos) as nat,
                |j: int| grid_position((pos + j) as nat, h_count, self.serpentine),
            )
        } else {
            Seq::empty()
        }
    }

    /// Creates a new grid iterator.
    ///
    /// # Arguments
    ///
    /// * `start` - The starting point (origin) of the grid
    /// * `vertical_step` - The vertical step between horizontal rows
    /// * `horizontal_step` - The horizontal step between vertical columns
    /// * `horizontal_pixel_count` - Number of pixels in a horizontal row
    /// * `vertical_pixel_count` - Number of pixels in a vertical column
    /// * `serpentine` - Whether to use zigzag pattern
    pub fn new(
        start: Item,
        vertical_step: Item,
        horizontal_step: Item,
        horizontal_pixel_count: usize,
        vertical_pixel_count: usize,
        serpentine: bool,
    ) -> (iter: Self)
        ensures
            iter.start_spec() == start,
            iter.vertical_step_spec() == vertical_step,
            iter.horizontal_step_spec() == horizontal_step,
            iter.remaining() == Seq::new(
                (vertical_pixel_count * horizontal_pixel_count) as nat,
                |k: int| grid_position(k as nat, horizontal_pixel_count as nat, serpentine),
            ),
    {
        let iter = Self {
            start,
            vertical_step,
            horizontal_step,
            horizontal_pixel_count,
            vertical_pixel_count,
            serpentine,
            horizontal_index: 0,
            vertical_index: 0,
            scalar: PhantomData,
        };
        proof {
            if horizontal_pixel_count > 0 {
                assert(0 * (horizontal_pixel_count as nat) + 0 == 0) by (nonlinear_arith);
                if 0 < vertical_pixel_count * horizontal_pixel_count {
                    assert(iter.remaining() =~= Seq::new(
                        (vertical_pixel_count * horizontal_pixel_count) as nat,
                        |k: int| grid_position(k as nat, horizontal_pixel_count as nat, serpentine),
                    ));
                } else {
                    assert(iter.remaining() =~= Seq::new(
                        (vertical_pixel_count * horizontal_pixel_count) as nat,
                        |k: int| grid_position(k as nat, horizontal_pixel_count as nat, serpentine),
                    ));
                }
            } else {
                assert(vertical_pixel_count * horizontal_pixel_count == 0) by (nonlinear_arith)
                    requires
                        horizontal_pixel_count == 0,
                ;
                assert(iter.remaining() =~= Seq::new(
                    (vertical_pixel_count * horizontal_pixel_count) as nat,
                    |k: int| grid_position(k as nat, horizontal_pixel_count as nat, serpentine),
                ));
            }
        }
        iter
    }

    /// The starting point (origin) of the grid.
    pub fn start(&self) -> (start: &Item)
        ensures
            *start == self.start_spec(),
    {
        &self.start
    }

    /// The vertical step between horizontal rows.
    pub fn vertical_step(&self) -> (step: &Item)
        ensures
            *step == self.vertical_step_spec(),
    {
        &self.vertical_step
    }

    /// The horizontal step between vertical columns.
    pub fn horizontal_step(&self) -> (step: &Item)
        ensures
            *step == self.horizontal_step_spec(),
    {
        &self.horizontal_step
    }

    /// The (vertical, horizontal) step counts of the next point (the next
    /// point is `start + v * vertical_step + h * horizontal_step`), or `None`
    /// once all points are out.
    pub fn next_indices(&mut self) -> (indices: Option<(usize, usize)>)
        ensures
            final(self).start_spec() == old(self).start_spec(),
            final(self).vertical_step_spec() == old(self).vertical_step_spec(),
            final(self).horizontal_step_spec() == old(self).horizontal_step_spec(),
            old(self).remaining().len() == 0 ==> indices is None && final(self).remaining()
                == old(self).remaining(),
            old(self).remaining().len() > 0 ==> indices is Some && (
                indices.unwrap().0 as nat,
                indices.unwrap().1 as nat,
            ) == old(self).remaining()[0] && final(self).remaining() == old(
                self,
            ).remaining().drop_first(),
    {
        proof {
            use_type_invariant(&*self);
        }
        let ghost before = self.remaining();
        let ghost h_count = self.horizontal_pixel_count as nat;
        let ghost v_count = self.vertical_pixel_count as nat;
        let ghost v0 = self.vertical_index as nat;
        let ghost h0 = self.horizontal_index as nat;
        if self.horizontal_pixel_count == 0 || self.vertical_index >= self.vertical_pixel_count {
            proof {
                if h_count > 0 {
                    assert(v0 * h_count + h0 >= v_count * h_count) by (nonlinear_arith)
                        requires
                            v0 >= v_count,
                    ;
                }
            }
            return None;
        }
        let horizontal_index = if self.serpentine && (self.vertical_index % 2 == 1) {
            self.horizontal_pixel_count - 1 - self.horizontal_index
        } else {
            self.horizontal_index
        };
        let vertical_index = self.vertical_index;
        let next_horizontal_index = self.horizontal_index + 1;
        if next_horizontal_index >= self.horizontal_pixel_count {
            self.horizontal_index = 0;
            self.vertical_index = self.vertical_index + 1;
        } else {
            self.horizontal_index = next_horizontal_index;
        }
        proof {
            if h_count > 0 {
                let pos = v0 * h_count + h0;
                assert(pos < v_count * h_count) by (nonlinear_arith)
                    requires
                        v0 < v_count,
                        h0 < h_count,
                        pos == v0 * h_count + h0,
                ;
                lemma_fundamental_div_mod_converse(pos as int, h_count as int, v0 as int, h0 as int);
                assert(before[0] == grid_position(pos, h_count, self.serpentine));
                let pos2 = self.vertical_index * h_count + self.horizontal_index;
                assert(pos2 == pos + 1) by (nonlinear_arith)
                    requires
                        pos == v0 * h_count + h0,
                        h0 + 1 < h_count ==> self.vertical_index == v0 && self.horizontal_index
                            == h0 + 1,
                        h0 + 1 >= h_count ==> self.vertical_index == v0 + 1
                            && self.horizontal_index == 0 && h0 + 1 == h_count,
                        pos2 == self.vertical_index * h_count + self.horizontal_index,
                ;
                assert(self.remaining() =~= before.drop_first());
            }
        }
        Some((vertical_index, horizontal_index))
    }
}

} // verus!
