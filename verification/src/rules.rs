use crate::game::Rule;
use crate::game::spec_decrement_wrap;
use crate::game::spec_increment_wrap;
use crate::game::spec_obs;
use crate::game::spec_step;
use crate::game::spec_step_n;
use crate::game::lemma_spec_step_shape;
use vstd::prelude::*;

verus! {

/// Number of live cells among the eight neighbor slots of an observation.
pub open spec fn count8(s: Seq<bool>) -> int {
    (if s[0] { 1int } else { 0int }) + (if s[1] { 1int } else { 0int })
        + (if s[2] { 1int } else { 0int }) + (if s[3] { 1int } else { 0int })
        + (if s[4] { 1int } else { 0int }) + (if s[5] { 1int } else { 0int })
        + (if s[6] { 1int } else { 0int }) + (if s[7] { 1int } else { 0int })
}

/// Conway's rule on one observation: a cell is live in the next generation
/// iff it has exactly three live neighbors, or it is live and has exactly two.
pub open spec fn spec_default_rule(cell: bool, neighbors: Seq<bool>) -> bool {
    count8(neighbors) == 3 || (cell && count8(neighbors) == 2)
}

/// This is the default rule set for Conway's game of life, but any
/// function on the (current cell, 8 neighbors) tuple returning a bool
/// can drive the propagator instead.
pub fn default_rule(tup: (bool, [bool; 8])) -> (r: bool)
    ensures
        r == spec_default_rule(tup.0, tup.1@),
{
    let (cell, arr) = tup;
    let mut neighbor_count: u8 = 0;
    if arr[0] {
        neighbor_count = neighbor_count + 1;
    }
    if arr[1] {
        neighbor_count = neighbor_count + 1;
    }
    if arr[2] {
        neighbor_count = neighbor_count + 1;
    }
    if arr[3] {
        neighbor_count = neighbor_count + 1;
    }
    if arr[4] {
        neighbor_count = neighbor_count + 1;
    }
    if arr[5] {
        neighbor_count = neighbor_count + 1;
    }
    if arr[6] {
        neighbor_count = neighbor_count + 1;
    }
    if arr[7] {
        neighbor_count = neighbor_count + 1;
    }
    if neighbor_count == 3 {
        true
    } else if cell && neighbor_count == 2 {
        true
    } else {
        false
    }
}

/// The canonical Game-of-Life rule as a pluggable rule value for the
/// propagator.
pub struct DefaultRule;

impl Rule for DefaultRule {
    open spec fn spec_rule(&self, cell: bool, neighbors: Seq<bool>) -> bool {
        spec_default_rule(cell, neighbors)
    }

    fn apply(&self, tup: (bool, [bool; 8])) -> (r: bool) {
        default_rule(tup)
    }
}

/// The constant-false rule: whatever the observation, the next state is
/// off.
pub struct ConstantFalse;

impl Rule for ConstantFalse {
    open spec fn spec_rule(&self, cell: bool, neighbors: Seq<bool>) -> bool {
        false
    }

    fn apply(&self, tup: (bool, [bool; 8])) -> (r: bool) {
        false
    }
}

/// Every cell in the `w` x `h` window is off.
pub open spec fn all_dead(g: Seq<Seq<bool>>, w: int, h: int) -> bool {
    forall|i: int, j: int| 0 <= i < w && 0 <= j < h ==> !(#[trigger] g[j][i])
}

/// One step under the constant-false rule turns every cell off, whatever
/// the grid held: the new generation is built in a fresh buffer from the
/// rule's results alone, so no old value — set by hand or otherwise —
/// leaks into it.
pub proof fn lemma_constant_false_clears(g: Seq<Seq<bool>>, w: int, h: int)
    ensures
        all_dead(spec_step(ConstantFalse, g, w, h), w, h),
{
    assert forall|i: int, j: int| 0 <= i < w && 0 <= j < h implies !(#[trigger] spec_step(
        ConstantFalse,
        g,
        w,
        h,
    )[j][i]) by {
        assert(spec_step(ConstantFalse, g, w, h)[j][i] == ConstantFalse.spec_rule(
            spec_obs(g, w, h, i, j).0,
            spec_obs(g, w, h, i, j).1,
        ));
    }
}

/// A fully-dead grid is still fully dead after one default-rule step:
/// every observation is of a live-free neighborhood, so the rule turns no
/// cell on.
pub proof fn lemma_dead_grid_step(g: Seq<Seq<bool>>, w: int, h: int)
    requires
        0 < w,
        0 < h,
        g.len() == h,
        forall|j: int| 0 <= j < h ==> (#[trigger] g[j]).len() == w,
        all_dead(g, w, h),
    ensures
        all_dead(spec_step(DefaultRule, g, w, h), w, h),
{
    assert forall|i: int, j: int| 0 <= i < w && 0 <= j < h implies !(#[trigger] spec_step(
        DefaultRule,
        g,
        w,
        h,
    )[j][i]) by {
        let px = spec_decrement_wrap(i, w);
        let nx = spec_increment_wrap(i, w);
        let py = spec_decrement_wrap(j, h);
        let ny = spec_increment_wrap(j, h);
        assert(0 <= px < w && 0 <= nx < w && 0 <= py < h && 0 <= ny < h);
        let ns = spec_obs(g, w, h, i, j).1;
        assert(!g[py][px] && !g[py][i] && !g[py][nx] && !g[j][px] && !g[j][nx] && !g[ny][px]
            && !g[ny][i] && !g[ny][nx]);
        assert(count8(ns) == 0);
        assert(spec_step(DefaultRule, g, w, h)[j][i] == spec_default_rule(
            spec_obs(g, w, h, i, j).0,
            ns,
        ));
    }
}

/// A fully-dead grid stays fully dead after any number of default-rule
/// steps: the empty state is a fixed point of the default rule.
pub proof fn lemma_dead_grid_stays_dead(g: Seq<Seq<bool>>, w: int, h: int, n: nat)
    requires
        0 < w,
        0 < h,
        g.len() == h,
        forall|j: int| 0 <= j < h ==> (#[trigger] g[j]).len() == w,
        all_dead(g, w, h),
    ensures
        all_dead(spec_step_n(DefaultRule, g, w, h, n), w, h),
    decreases n,
{
    if n > 0 {
        lemma_dead_grid_stays_dead(g, w, h, (n - 1) as nat);
        lemma_step_n_shape(g, w, h, (n - 1) as nat);
        lemma_dead_grid_step(spec_step_n(DefaultRule, g, w, h, (n - 1) as nat), w, h);
    }
}

/// Iterating the default rule keeps the grid's shape.
proof fn lemma_step_n_shape(g: Seq<Seq<bool>>, w: int, h: int, n: nat)
    requires
        0 < w,
        0 < h,
        g.len() == h,
        forall|j: int| 0 <= j < h ==> (#[trigger] g[j]).len() == w,
    ensures
        spec_step_n(DefaultRule, g, w, h, n).len() == h,
        forall|j: int| 0 <= j < h ==> (#[trigger] spec_step_n(DefaultRule, g, w, h, n)[j]).len()
            == w,
    decreases n,
{
    if n > 0 {
        lemma_step_n_shape(g, w, h, (n - 1) as nat);
        lemma_spec_step_shape(DefaultRule, spec_step_n(DefaultRule, g, w, h, (n - 1) as nat), w, h);
    }
}

} // verus!
