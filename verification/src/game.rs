use rayon::iter::IndexedParallelIterator;
use rayon::iter::IntoParallelIterator;
use rayon::iter::ParallelIterator;
use vstd::prelude::*;

verus! {

/// Wrap-around successor: `one_over_max - 1` wraps to `0`, anything below
/// goes up by one.
pub open spec fn spec_increment_wrap(i: int, one_over_max: int) -> int {
    if i == one_over_max - 1 {
        0
    } else {
        i + 1
    }
}

/// Wrap-around predecessor: `0` wraps to `one_over_max - 1`, anything above
/// goes down by one.
pub open spec fn spec_decrement_wrap(i: int, one_over_max: int) -> int {
    if i == 0 {
        one_over_max - 1
    } else {
        i - 1
    }
}

/// A transition rule: a pure function from one cell's observation (its own
/// state and the fixed-order states of its eight neighbors) to the cell's
/// next state. `spec_rule` is the mathematical meaning; `apply` must return
/// exactly that value, so a rule is deterministic and safe to evaluate
/// concurrently and in any order across the cells of one generation.
pub trait Rule: Sync {
    spec fn spec_rule(&self, cell: bool, neighbors: Seq<bool>) -> bool;

    fn apply(&self, tup: (bool, [bool; 8])) -> (r: bool)
        ensures
            r == self.spec_rule(tup.0, tup.1@),
    ;
}

/// The observation of cell `(x, y)` on the torus: its own state, then its
/// eight neighbors in fixed order: north-west, north, north-east, west,
/// east, south-west, south, south-east. Both axes wrap independently, so a
/// corner cell picks up the opposite corner as a diagonal neighbor.
pub open spec fn spec_obs(g: Seq<Seq<bool>>, w: int, h: int, x: int, y: int) -> (bool, Seq<bool>) {
    let px = spec_decrement_wrap(x, w);
    let nx = spec_increment_wrap(x, w);
    let py = spec_decrement_wrap(y, h);
    let ny = spec_increment_wrap(y, h);
    (
        g[y][x],
        seq![
            g[py][px],
            g[py][x],
            g[py][nx],
            g[y][px],
            g[y][nx],
            g[ny][px],
            g[ny][x],
            g[ny][nx],
        ],
    )
}

/// Next state of cell `(x, y)` under `rule`.
pub open spec fn spec_step_cell<R: Rule>(
    rule: R,
    g: Seq<Seq<bool>>,
    w: int,
    h: int,
    x: int,
    y: int,
) -> bool {
    let obs = spec_obs(g, w, h, x, y);
    rule.spec_rule(obs.0, obs.1)
}

/// Row `y` of the next generation under `rule`.
pub open spec fn spec_step_row<R: Rule>(
    rule: R,
    g: Seq<Seq<bool>>,
    w: int,
    h: int,
    y: int,
) -> Seq<bool> {
    Seq::new(w as nat, |x: int| spec_step_cell(rule, g, w, h, x, y))
}

/// The whole next generation under `rule`: every cell of the result is the
/// rule applied to that cell's observation of the prior generation.
pub open spec fn spec_step<R: Rule>(rule: R, g: Seq<Seq<bool>>, w: int, h: int) -> Seq<Seq<bool>> {
    Seq::new(h as nat, |y: int| spec_step_row(rule, g, w, h, y))
}

/// The grid after `n` generations under `rule`.
pub open spec fn spec_step_n<R: Rule>(
    rule: R,
    g: Seq<Seq<bool>>,
    w: int,
    h: int,
    n: nat,
) -> Seq<Seq<bool>>
    decreases n,
{
    if n == 0 {
        g
    } else {
        spec_step(rule, spec_step_n(rule, g, w, h, (n - 1) as nat), w, h)
    }
}

/// A generation step keeps the grid's shape: `h` rows of `w` cells.
pub proof fn lemma_spec_step_shape<R: Rule>(rule: R, g: Seq<Seq<bool>>, w: int, h: int)
    requires
        0 <= w,
        0 <= h,
    ensures
        spec_step(rule, g, w, h).len() == h,
        forall|j: int| 0 <= j < h ==> (#[trigger] spec_step(rule, g, w, h)[j]).len() == w,
{
}

/// The sequential and the parallel step agree: `propogate` and
/// `propogate_par` both ensure that the new generation is exactly
/// `spec_step` of the old one, so, applied with the same rule to identical
/// starting grids, they produce bit-identical resulting grids.
pub proof fn lemma_sequential_parallel_agree<R: Rule>(
    rule: R,
    g1: Seq<Seq<bool>>,
    g2: Seq<Seq<bool>>,
    w: int,
    h: int,
)
    requires
        g1 == g2,
    ensures
        spec_step(rule, g1, w, h) == spec_step(rule, g2, w, h),
{
}

/// Seeding is deterministic: `new_seeded` ensures that its result is
/// exactly `seeded_grid(x, y, seed)`, so two grids it built from the same
/// width, height and seed are bit-identical.
pub proof fn lemma_seeded_deterministic(g1: Grid, g2: Grid, x: int, y: int, seed: u64)
    requires
        g1@ == seeded_grid(x, y, seed),
        g2@ == seeded_grid(x, y, seed),
    ensures
        g1@ == g2@,
{
}

/// Grid object that holds the 2D cell on/off matrix.
///
/// The matrix is row-major: the view is a sequence of `height` rows, each a
/// sequence of `width` booleans. Construction rejects zero sizes by
/// contract: a grid is always at least 1 x 1.
pub struct Grid {
    pub width: usize,
    pub height: usize,
    pub grid: Vec<Vec<bool>>,
}

impl View for Grid {
    type V = Seq<Seq<bool>>;

    open spec fn view(&self) -> Seq<Seq<bool>> {
        Seq::new(self.grid@.len(), |y: int| self.grid@[y]@)
    }
}

impl Grid {
    /// The matrix has exactly `height` rows of exactly `width` cells each,
    /// and both sizes are positive.
    pub open spec fn wf(&self) -> bool {
        &&& 0 < self.width
        &&& 0 < self.height
        &&& self@.len() == self.height
        &&& forall|y: int| 0 <= y < self.height ==> (#[trigger] self@[y]).len() == self.width
    }

    /// New grid with randomized initial state, drawn from the operating
    /// system's entropy source. Nothing is promised of the cell values.
    pub fn new(x: usize, y: usize) -> (g: Grid)
        requires
            0 < x,
            0 < y,
        ensures
            g.wf(),
            g.width == x,
            g.height == y,
    {
        let mut rng = chacha_from_entropy();
        let rows = random_rows(&mut rng, x, y);
        Grid { width: x, height: y, grid: rows }
    }

    /// New grid randomized using seed. The result is a function of
    /// `(x, y, seed)` alone: equal arguments give bit-identical grids.
    pub fn new_seeded(x: usize, y: usize, seed: u64) -> (g: Grid)
        requires
            0 < x,
            0 < y,
        ensures
            g.wf(),
            g.width == x,
            g.height == y,
            g@ == seeded_grid(x as int, y as int, seed),
    {
        let mut rng = chacha_from_seed(seed);
        let ghost rng0 = rng;
        let rows = random_rows(&mut rng, x, y);
        let g = Grid { width: x, height: y, grid: rows };
        proof {
            assert forall|j: int, i: int| 0 <= j < y && 0 <= i < x implies #[trigger] g@[j][i]
                == seeded_bit(seed, (j * (x as int) + i) as nat) by {
                assert(g@[j] == rows@[j]@);
                assert(stream_bit(rng0, (j * (x as int) + i) as nat) == seeded_bit(
                    seed,
                    (j * (x as int) + i) as nat,
                ));
            }
            assert(g@ =~~= seeded_grid(x as int, y as int, seed));
        }
        g
    }

    /// New grid with all cells turned off.
    pub fn new_empty(x: usize, y: usize) -> (g: Grid)
        requires
            0 < x,
            0 < y,
        ensures
            g.wf(),
            g.width == x,
            g.height == y,
            forall|i: int, j: int| 0 <= i < x && 0 <= j < y ==> !(#[trigger] g@[j][i]),
    {
        let mut rows: Vec<Vec<bool>> = Vec::new();
        for j in 0..y
            invariant
                rows@.len() == j,
                forall|jj: int| 0 <= jj < j ==> (#[trigger] rows@[jj])@.len() == x,
                forall|jj: int, ii: int| 0 <= jj < j && 0 <= ii < x ==> !(#[trigger] rows@[jj]@[ii]),
        {
            let mut row: Vec<bool> = Vec::new();
            for i in 0..x
                invariant
                    row@.len() == i,
                    forall|ii: int| 0 <= ii < i ==> !(#[trigger] row@[ii]),
            {
                row.push(false);
            }
            rows.push(row);
        }
        let g = Grid { width: x, height: y, grid: rows };
        proof {
            assert forall|i: int, j: int| 0 <= i < x && 0 <= j < y implies !(#[trigger] g@[j][i]) by {
                assert(g@[j] == rows@[j]@);
            }
        }
        g
    }

    /// Decrement with wrap (0 wraps to max).
    pub fn decrement_wrap(i: usize, one_over_max: usize) -> (r: usize)
        requires
            0 < one_over_max,
            i < one_over_max,
        ensures
            r == spec_decrement_wrap(i as int, one_over_max as int),
            r < one_over_max,
    {
        if i == 0 {
            one_over_max - 1
        } else {
            i - 1
        }
    }

    /// Increment with wrap (max wraps to 0).
    pub fn increment_wrap(i: usize, one_over_max: usize) -> (r: usize)
        requires
            0 < one_over_max,
            i < one_over_max,
        ensures
            r == spec_increment_wrap(i as int, one_over_max as int),
            r < one_over_max,
    {
        if i == one_over_max - 1 {
            0
        } else {
            i + 1
        }
    }

    /// Set cell at coordinates to on or off.
    pub fn set_cell(&mut self, x: usize, y: usize, content: bool)
        requires
            old(self).wf(),
            x < old(self).width,
            y < old(self).height,
        ensures
            final(self).wf(),
            final(self).width == old(self).width,
            final(self).height == old(self).height,
            final(self)@ == old(self)@.update(
                y as int,
                old(self)@[y as int].update(x as int, content),
            ),
    {
        proof {
            assert(self@[y as int] == self.grid@[y as int]@);
        }
        self.grid[y][x] = content;
        proof {
            assert(self@ =~~= old(self)@.update(
                y as int,
                old(self)@[y as int].update(x as int, content),
            ));
        }
    }

    /// Returns a tuple with (cell at coords, [array of 8 neighbors row-by-row
    /// left-to-right]), wrapping around the grid edges on both axes.
    pub fn self_and_neighbors(&self, x: usize, y: usize) -> (r: (bool, [bool; 8]))
        requires
            self.wf(),
            x < self.width,
            y < self.height,
        ensures
            r.0 == spec_obs(self@, self.width as int, self.height as int, x as int, y as int).0,
            r.1@ == spec_obs(self@, self.width as int, self.height as int, x as int, y as int).1,
    {
        let prev_x = Self::decrement_wrap(x, self.width);
        let next_x = Self::increment_wrap(x, self.width);
        let prev_y = Self::decrement_wrap(y, self.height);
        let next_y = Self::increment_wrap(y, self.height);
        proof {
            assert(self@[y as int] == self.grid@[y as int]@);
            assert(self@[prev_y as int] == self.grid@[prev_y as int]@);
            assert(self@[next_y as int] == self.grid@[next_y as int]@);
        }
        let arr: [bool; 8] = [
            self.grid[prev_y][prev_x],
            self.grid[prev_y][x],
            self.grid[prev_y][next_x],
            self.grid[y][prev_x],
            self.grid[y][next_x],
            self.grid[next_y][prev_x],
            self.grid[next_y][x],
            self.grid[next_y][next_x],
        ];
        proof {
            assert(arr@ =~= spec_obs(
                self@,
                self.width as int,
                self.height as int,
                x as int,
                y as int,
            ).1);
        }
        (self.grid[y][x], arr)
    }

    /// One row of the next generation, computed from the current one.
    fn step_row<R: Rule>(&self, run_rule: &R, y: usize) -> (row: Vec<bool>)
        requires
            self.wf(),
            y < self.height,
        ensures
            row@ == spec_step_row(*run_rule, self@, self.width as int, self.height as int, y as int),
    {
        let mut row: Vec<bool> = Vec::new();
        for x in 0..self.width
            invariant
                self.wf(),
                y < self.height,
                row@.len() == x,
                forall|i: int| 0 <= i < x ==> #[trigger] row@[i] == spec_step_cell(
                    *run_rule,
                    self@,
                    self.width as int,
                    self.height as int,
                    i,
                    y as int,
                ),
        {
            row.push(run_rule.apply(self.self_and_neighbors(x, y)));
        }
        proof {
            assert(row@ =~= spec_step_row(
                *run_rule,
                self@,
                self.width as int,
                self.height as int,
                y as int,
            ));
        }
        row
    }

    /// Calculate next game frame using the rule function parameter on each
    /// cell neighbor group. Every cell of the new generation is the rule
    /// applied to the old generation's observation; only after all cells are
    /// computed does the new buffer replace the grid contents.
    pub fn propogate<R: Rule>(&mut self, run_rule: &R)
        requires
            old(self).wf(),
        ensures
            final(self).wf(),
            final(self).width == old(self).width,
            final(self).height == old(self).height,
            final(self)@ == spec_step(
                *run_rule,
                old(self)@,
                old(self).width as int,
                old(self).height as int,
            ),
    {
        let mut next_grid: Vec<Vec<bool>> = Vec::new();
        let height = self.height;
        for y in 0..height
            invariant
                *self == *old(self),
                self.wf(),
                height == self.height,
                next_grid@.len() == y,
                forall|j: int| 0 <= j < y ==> (#[trigger] next_grid@[j])@ == spec_step_row(
                    *run_rule,
                    self@,
                    self.width as int,
                    self.height as int,
                    j,
                ),
        {
            let row = self.step_row(run_rule, y);
            next_grid.push(row);
        }
        self.grid = next_grid;
        proof {
            assert(self@ =~~= spec_step(
                *run_rule,
                old(self)@,
                old(self).width as int,
                old(self).height as int,
            ));
        }
    }

    /// Calculate next game frame in parallel using the rule function
    /// parameter on each cell neighbor group. The output is bit-identical to
    /// `propogate` on the same grid and rule: every worker reads only the
    /// prior generation and writes a disjoint row of the new buffer.
    pub fn propogate_par<R: Rule>(&mut self, run_rule: &R)
        requires
            old(self).wf(),
        ensures
            final(self).wf(),
            final(self).width == old(self).width,
            final(self).height == old(self).height,
            final(self)@ == spec_step(
                *run_rule,
                old(self)@,
                old(self).width as int,
                old(self).height as int,
            ),
    {
        let next_grid = par_rows(self, run_rule);
        self.grid = next_grid;
        proof {
            assert(self@ =~~= spec_step(
                *run_rule,
                old(self)@,
                old(self).width as int,
                old(self).height as int,
            ));
        }
    }

    /// Get cell at coordinates.
    pub fn get_cell(&self, x: usize, y: usize) -> (r: bool)
        requires
            self.wf(),
            x < self.width,
            y < self.height,
        ensures
            r == self@[y as int][x as int],
    {
        proof {
            assert(self@[y as int] == self.grid@[y as int]@);
        }
        self.grid[y][x]
    }
}

/// The deterministic initial matrix that `new_seeded` builds from `seed`:
/// cell `(i, j)` is draw number `j * x + i` of the seeded stream, so the
/// whole matrix is a function of `(x, y, seed)` alone.
pub open spec fn seeded_grid(x: int, y: int, seed: u64) -> Seq<Seq<bool>> {
    Seq::new(y as nat, |j: int| Seq::new(x as nat, |i: int| seeded_bit(seed, (j * x + i) as nat)))
}

/// `y` rows of `x` cells each, filled row-major with the generator's
/// upcoming draws: cell `(i, j)` gets draw number `j * x + i`.
fn random_rows(rng: &mut rand_chacha::ChaCha20Rng, x: usize, y: usize) -> (rows: Vec<Vec<bool>>)
    ensures
        rows@.len() == y,
        forall|j: int| 0 <= j < y ==> (#[trigger] rows@[j])@.len() == x,
        forall|j: int, i: int| 0 <= j < y && 0 <= i < x ==> (#[trigger] rows@[j]@[i])
            == stream_bit(*old(rng), (j * (x as int) + i) as nat),
{
    let ghost rng0 = *rng;
    let mut rows: Vec<Vec<bool>> = Vec::new();
    for j in 0..y
        invariant
            rows@.len() == j,
            forall|jj: int| 0 <= jj < j ==> (#[trigger] rows@[jj])@.len() == x,
            forall|jj: int, ii: int| 0 <= jj < j && 0 <= ii < x ==> (#[trigger] rows@[jj]@[ii])
                == stream_bit(rng0, (jj * (x as int) + ii) as nat),
            forall|k: nat| #[trigger] stream_bit(*rng, k) == stream_bit(
                rng0,
                (k + (j as int) * (x as int)) as nat,
            ),
    {
        let mut row: Vec<bool> = Vec::new();
        for i in 0..x
            invariant
                j < y,
                row@.len() == i,
                forall|ii: int| 0 <= ii < i ==> (#[trigger] row@[ii]) == stream_bit(
                    rng0,
                    ((j as int) * (x as int) + ii) as nat,
                ),
                forall|k: nat| #[trigger] stream_bit(*rng, k) == stream_bit(
                    rng0,
                    (k + (j as int) * (x as int) + i) as nat,
                ),
        {
            let b = chacha_gen_bool(rng);
            row.push(b);
        }
        rows.push(row);
        proof {
            assert(((j as int) + 1) * (x as int) == (j as int) * (x as int) + (x as int))
                by (nonlinear_arith);
        }
    }
    rows
}

#[verifier::external_type_specification]
#[verifier::external_body]
pub struct ExChaCha20Rng(rand_chacha::ChaCha20Rng);

/// The `k`-th upcoming boolean draw of a generator state. `ChaCha20Rng` is a
/// deterministic pseudo-random generator: every future draw is a function of
/// the state alone, so this is well defined for each state value.
pub uninterp spec fn stream_bit(rng: rand_chacha::ChaCha20Rng, k: nat) -> bool;

/// The `k`-th boolean draw of the generator seeded from `seed`.
/// `SeedableRng::seed_from_u64` is documented reproducible: the same seed
/// gives the same stream on every run, platform and library version.
pub uninterp spec fn seeded_bit(seed: u64, k: nat) -> bool;

/// Relies on `rand_core::SeedableRng::seed_from_u64` (as implemented by
/// `rand_chacha::ChaCha20Rng`): seeding is deterministic, so the returned
/// state's stream is the stream that `seed` names.
#[verifier::external_body]
fn chacha_from_seed(seed: u64) -> (rng: rand_chacha::ChaCha20Rng)
    ensures
        forall|k: nat| stream_bit(rng, k) == seeded_bit(seed, k),
{
    <rand_chacha::ChaCha20Rng as rand::SeedableRng>::seed_from_u64(seed)
}

/// Relies on `rand_core::SeedableRng::from_entropy`: a fresh generator
/// seeded from the operating system's entropy source. Nothing is promised
/// of the state it returns.
#[verifier::external_body]
fn chacha_from_entropy() -> rand_chacha::ChaCha20Rng {
    <rand_chacha::ChaCha20Rng as rand::SeedableRng>::from_entropy()
}

/// Relies on `rand::Rng::gen::<bool>`: it returns the sign bit of the next
/// 32-bit word of the generator's stream and advances the state, both
/// deterministic functions of the prior state. So the draw is the first
/// upcoming bit of the old state, and the new state's upcoming bits are the
/// old state's shifted by one.
#[verifier::external_body]
fn chacha_gen_bool(rng: &mut rand_chacha::ChaCha20Rng) -> (b: bool)
    ensures
        b == stream_bit(*old(rng), 0),
        forall|k: nat| stream_bit(*final(rng), k) == stream_bit(*old(rng), k + 1),
{
    rand::Rng::gen::<bool>(rng)
}

/// Relies on rayon's parallel iterators: `(0..h).into_par_iter().map(f)`
/// calls `f` on every index of the range, and
/// `IndexedParallelIterator::collect_into_vec` stores each result at its
/// index, in the range's order. The closure only calls the verified
/// `Grid::step_row`, so row `y` of the result is exactly `spec_step_row` at
/// `y` of the prior generation.
#[verifier::external_body]
fn par_rows<R: Rule>(g: &Grid, run_rule: &R) -> (rows: Vec<Vec<bool>>)
    requires
        g.wf(),
    ensures
        rows@.len() == g.height,
        forall|y: int| 0 <= y < g.height ==> (#[trigger] rows@[y])@ == spec_step_row(
            *run_rule,
            g@,
            g.width as int,
            g.height as int,
            y,
        ),
{
    let mut rows: Vec<Vec<bool>> = Vec::new();
    (0..g.height).into_par_iter().map(|y| g.step_row(run_rule, y)).collect_into_vec(&mut rows);
    rows
}

} // verus!
