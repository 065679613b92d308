use vstd::prelude::*;
use crate::escape::{escape_decision, escape_time, lemma_escape_time_at, lemma_escape_time_bounded};

verus! {

/// What a sampler has seen so far: the outcomes of the magnitude tests `|z_n| > 2`
/// of every orbit, grouped by pixel and row.
pub struct SamplerView {
    pub max_iters: nat,
    pub width: nat,
    pub height: nat,
    /// Test outcomes of each finished pixel, for each finished row.
    pub rows: Seq<Seq<Seq<bool>>>,
    /// Test outcomes of each finished pixel of the row in progress.
    pub row: Seq<Seq<bool>>,
    /// Test outcomes so far of the orbit in progress.
    pub orbit: Seq<bool>,
}

impl SamplerView {
    /// Every pixel of the grid has its escape count.
    pub open spec fn is_done(self) -> bool {
        self.rows.len() >= self.height
    }

    /// The pixel whose orbit is being tested: column, then row.
    pub open spec fn current_pixel(self) -> (nat, nat) {
        (self.row.len(), self.rows.len())
    }
}

/// `grid` is the sample grid of the recorded test outcomes `tests`: `height` rows of
/// `width` cells, cell `(x, y)` holding the escape time of the orbit of pixel `(x, y)`.
pub open spec fn is_grid_of(
    grid: Seq<Vec<usize>>,
    tests: Seq<Seq<Seq<bool>>>,
    width: nat,
    height: nat,
    max_iters: nat,
) -> bool {
    &&& grid.len() == height
    &&& forall|y: int| 0 <= y < height ==> (#[trigger] grid[y])@.len() == width
    &&& forall|y: int, x: int|
        0 <= y < height && 0 <= x < width ==> grid[y]@[x] as nat == escape_time(
            tests[y][x],
            max_iters,
        )
}

/// The sample grid is determined by its inputs: two grids sampled with the same
/// dimensions and cut-off, whose orbits gave the same test outcomes, are identical.
pub proof fn lemma_grid_deterministic(
    a: Seq<Vec<usize>>,
    b: Seq<Vec<usize>>,
    tests: Seq<Seq<Seq<bool>>>,
    width: nat,
    height: nat,
    max_iters: nat,
)
    requires
        is_grid_of(a, tests, width, height, max_iters),
        is_grid_of(b, tests, width, height, max_iters),
    ensures
        a.len() == b.len(),
        forall|y: int| 0 <= y < a.len() ==> (#[trigger] a[y])@ == b[y]@,
{
    assert forall|y: int| 0 <= y < a.len() implies (#[trigger] a[y])@ == b[y]@ by {
        assert(a[y]@.len() == width && b[y]@.len() == width);
        assert forall|x: int| 0 <= x < width implies a[y]@[x] == b[y]@[x] by {
            assert(a[y]@[x] as nat == escape_time(tests[y][x], max_iters));
            assert(b[y]@[x] as nat == escape_time(tests[y][x], max_iters));
        }
        assert(a[y]@ =~= b[y]@);
    }
}

/// The escape-time sampler, walking a `width x height` grid in row-major order.
///
/// For each pixel `(px, py)` the caller maps it into the complex plane, runs the
/// orbit `z_0 = 0, z_{n+1} = z_n^2 + c`, and reports for each `n` whether
/// `|z_n| > 2`; the sampler decides when the orbit ends and records the escape count.
pub struct Sampler {
    max_iters: usize,
    width: usize,
    height: usize,
    rows: Vec<Vec<usize>>,
    row: Vec<usize>,
    step: usize,
    rows_tests: Ghost<Seq<Seq<Seq<bool>>>>,
    row_tests: Ghost<Seq<Seq<bool>>>,
    orbit: Ghost<Seq<bool>>,
}

impl View for Sampler {
    type V = SamplerView;

    closed spec fn view(&self) -> SamplerView {
        SamplerView {
            max_iters: self.max_iters as nat,
            width: self.width as nat,
            height: self.height as nat,
            rows: self.rows_tests@,
            row: self.row_tests@,
            orbit: self.orbit@,
        }
    }
}

impl Sampler {
    /// The sampler's internal consistency: the recorded counts are the escape
    /// times of the recorded tests, and the grid is filled in row-major order.
    pub closed spec fn wf(&self) -> bool {
        &&& self.width >= 1
        &&& self.height >= 1
        &&& self.rows@.len() == self.rows_tests@.len() <= self.height
        &&& forall|y: int| 0 <= y < self.rows@.len() ==> {
            &&& #[trigger] self.rows@[y]@.len() == self.width
            &&& self.rows_tests@[y].len() == self.width
            &&& forall|x: int| 0 <= x < self.width ==> self.rows@[y]@[x] as nat == escape_time(
                #[trigger] self.rows_tests@[y][x], self.max_iters as nat)
        }
        &&& self.row@.len() == self.row_tests@.len() < self.width
        &&& forall|x: int| 0 <= x < self.row@.len() ==> self.row@[x] as nat == escape_time(
            #[trigger] self.row_tests@[x], self.max_iters as nat)
        &&& self.rows@.len() == self.height ==> self.row@.len() == 0 && self.orbit@.len() == 0
        &&& self.step == self.orbit@.len() <= self.max_iters
        &&& forall|i: int| 0 <= i < self.orbit@.len() ==> !#[trigger] self.orbit@[i]
    }

    /// A sampler for a `width x height` grid whose orbits are cut off after `max_iters`.
    pub fn new(max_iters: usize, width: usize, height: usize) -> (r: Sampler)
        requires
            width >= 1,
            height >= 1,
        ensures
            r.wf(),
            r@.max_iters == max_iters,
            r@.width == width,
            r@.height == height,
            r@.rows.len() == 0,
            r@.row.len() == 0,
            r@.orbit.len() == 0,
    {
        Sampler {
            max_iters,
            width,
            height,
            rows: Vec::new(),
            row: Vec::new(),
            step: 0,
            rows_tests: Ghost(Seq::empty()),
            row_tests: Ghost(Seq::empty()),
            orbit: Ghost(Seq::empty()),
        }
    }

    /// The pixel `(px, py)` whose orbit is to be tested next, or `None` once the grid is full.
    pub fn pixel(&self) -> (r: Option<(usize, usize)>)
        requires
            self.wf(),
        ensures
            self@.is_done() ==> r is None,
            !self@.is_done() ==> (r matches Some((px, py)) && (px as nat, py as nat)
                == self@.current_pixel() && px < self@.width && py < self@.height),
    {
        if self.rows.len() >= self.height {
            None
        } else {
            Some((self.row.len(), self.rows.len()))
        }
    }

    /// Records the outcome of the test `|z_n| > 2` on the current orbit, `n` being the
    /// number of tests it has had so far. Returns `true` when that ends the orbit (its
    /// pixel then has its count and the next call concerns the next pixel), `false` when
    /// the caller is to compute `z_{n+1}` and test again.
    pub fn observe(&mut self, escaped: bool) -> (finished: bool)
        requires
            old(self).wf(),
            !old(self)@.is_done(),
        ensures
            final(self).wf(),
            final(self)@.max_iters == old(self)@.max_iters,
            final(self)@.width == old(self)@.width,
            final(self)@.height == old(self)@.height,
            finished == (escaped || old(self)@.orbit.len() == old(self)@.max_iters),
            !finished ==> final(self)@.rows == old(self)@.rows && final(self)@.row
                == old(self)@.row && final(self)@.orbit == old(self)@.orbit.push(escaped),
            finished ==> final(self)@.orbit.len() == 0,
            finished && old(self)@.row.len() + 1 < old(self)@.width ==> final(self)@.rows
                == old(self)@.rows && final(self)@.row == old(self)@.row.push(
                old(self)@.orbit.push(escaped),
            ),
            finished && old(self)@.row.len() + 1 == old(self)@.width ==> final(self)@.rows
                == old(self)@.rows.push(old(self)@.row.push(old(self)@.orbit.push(escaped)))
                && final(self)@.row.len() == 0,
    {
        let ghost tests = self.orbit@.push(escaped);
        match escape_decision(self.step, self.max_iters, escaped) {
            None => {
                self.step = self.step + 1;
                self.orbit = Ghost(tests);
                false
            },
            Some(count) => {
                proof {
                    lemma_escape_time_at(self.orbit@, escaped, self.max_iters as nat);
                }
                self.row.push(count);
                self.row_tests = Ghost(self.row_tests@.push(tests));
                self.step = 0;
                self.orbit = Ghost(Seq::empty());
                if self.row.len() == self.width {
                    let mut full: Vec<usize> = Vec::new();
                    std::mem::swap(&mut full, &mut self.row);
                    self.rows.push(full);
                    self.rows_tests = Ghost(self.rows_tests@.push(self.row_tests@));
                    self.row_tests = Ghost(Seq::empty());
                }
                true
            },
        }
    }

    /// The finished grid: `height` rows of `width` escape counts, each the escape time
    /// of the tests recorded for its pixel, so within `[0, max_iters]`.
    pub fn into_grid(self) -> (grid: Vec<Vec<usize>>)
        requires
            self.wf(),
            self@.is_done(),
        ensures
            is_grid_of(grid@, self@.rows, self@.width, self@.height, self@.max_iters),
            forall|y: int, x: int|
                0 <= y < self@.height && 0 <= x < self@.width ==> grid@[y]@[x]
                    <= self@.max_iters,
    {
        proof {
            assert forall|y: int, x: int|
                #![trigger self.rows@[y]@[x]]
                0 <= y < self@.height && 0 <= x < self@.width implies self.rows@[y]@[x] as nat
                == escape_time(self@.rows[y][x], self@.max_iters) && self.rows@[y]@[x]
                <= self@.max_iters by {
                assert(self.rows@[y]@.len() == self.width);
                assert(self.rows@[y]@[x] as nat == escape_time(
                    self.rows_tests@[y][x],
                    self.max_iters as nat,
                ));
                lemma_escape_time_bounded(self.rows_tests@[y][x], 0, self.max_iters as nat);
            }
        }
        self.rows
    }
}

} // verus!
