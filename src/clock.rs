use vstd::prelude::*;

verus! {

/// `x / y` rounded to the nearest integer, halves going to the even neighbour.
pub open spec fn div_round(x: nat, y: nat) -> nat
    recommends
        y > 0,
{
    let q = x / y;
    let r = x % y;
    if 2 * r > y {
        q + 1
    } else if 2 * r == y && q % 2 == 1 {
        q + 1
    } else {
        q
    }
}

/// Samples in one sixteenth-note step at `bpm` beats per minute:
/// `round(sample_rate * 60 / (bpm * 4))`, never less than one.
pub open spec fn step_length(sample_rate: nat, bpm: nat) -> nat {
    let r = div_round(sample_rate * 60, bpm * 4);
    if r < 1 { 1 } else { r }
}

/// The sample counter and step index after one tick of a running clock over
/// `n` steps of `len` samples each.
pub open spec fn clock_next(counter: int, step: int, n: int, len: int) -> (int, int) {
    if counter + 1 >= len {
        (0, (step + 1) % n)
    } else {
        (counter + 1, step)
    }
}

/// Counter and step after `k` ticks of a running clock.
pub open spec fn clock_after(counter: int, step: int, n: int, len: int, k: nat) -> (int, int)
    decreases k,
{
    if k == 0 {
        (counter, step)
    } else {
        let nx = clock_next(counter, step, n, len);
        clock_after(nx.0, nx.1, n, len, (k - 1) as nat)
    }
}

/// Step-boundary events in `k` ticks of a running clock: one on each tick
/// that starts with the counter at zero.
pub open spec fn boundaries(counter: int, step: int, n: int, len: int, k: nat) -> nat
    decreases k,
{
    if k == 0 {
        0
    } else {
        let nx = clock_next(counter, step, n, len);
        (if counter == 0 { 1nat } else { 0nat }) + boundaries(nx.0, nx.1, n, len, (k - 1) as nat)
    }
}

/// Samples per step at the given tempo; `bpm` must be positive.
pub fn samples_per_step(sample_rate: u32, bpm: u32) -> (r: u64)
    requires
        bpm > 0,
    ensures
        r as nat == step_length(sample_rate as nat, bpm as nat),
        r >= 1,
        r <= 15 * (sample_rate as nat) + 1,
{
    let x: u64 = sample_rate as u64 * 60;
    let y: u64 = bpm as u64 * 4;
    let q = x / y;
    let rem = x % y;
    let rounded = if 2 * rem > y {
        q + 1
    } else if 2 * rem == y && q % 2 == 1 {
        q + 1
    } else {
        q
    };
    assert(q <= 15 * (sample_rate as nat)) by (nonlinear_arith)
        requires
            q == x / y,
            y >= 4,
            x == sample_rate * 60,
    {
        assert(x / y <= x / 4) by {
            vstd::arithmetic::div_mod::lemma_div_is_ordered_by_denominator(x as int, 4, y as int);
        }
    }
    if rounded < 1 {
        1
    } else {
        rounded
    }
}

/// From the start of a step, a clock running at a fixed step length
/// crosses exactly one step boundary in the next `len` ticks and then stands
/// at the start of the following step.
pub proof fn lemma_one_boundary_per_step(step: int, n: int, len: int)
    requires
        n > 0,
        0 <= step < n,
        len >= 1,
    ensures
        boundaries(0, step, n, len, len as nat) == 1,
        clock_after(0, step, n, len, len as nat) == (0int, (step + 1) % n),
{
    let k = len as nat;
    assert(clock_next(0, step, n, len) == if len > 1 { (1int, step) } else { (0int, (step + 1) % n) });
    assert(boundaries(0, step, n, len, k) == 1 + boundaries(
        clock_next(0, step, n, len).0, clock_next(0, step, n, len).1, n, len, (k - 1) as nat));
    if len > 1 {
        lemma_rest_of_step(1, step, n, len);
        assert((k - 1) as nat == (len - 1) as nat);
    } else {
        assert(boundaries(0, (step + 1) % n, n, len, 0) == 0);
        assert(clock_after(0, (step + 1) % n, n, len, 0) == (0int, (step + 1) % n));
    }
}

/// Midway through a step, the remaining ticks of the step fire no event.
proof fn lemma_rest_of_step(counter: int, step: int, n: int, len: int)
    requires
        n > 0,
        0 < counter < len,
    ensures
        boundaries(counter, step, n, len, (len - counter) as nat) == 0,
        clock_after(counter, step, n, len, (len - counter) as nat) == (0int, (step + 1) % n),
    decreases len - counter,
{
    let k = (len - counter) as nat;
    let nx = clock_next(counter, step, n, len);
    assert(boundaries(counter, step, n, len, k) == boundaries(nx.0, nx.1, n, len, (k - 1) as nat));
    assert(clock_after(counter, step, n, len, k) == clock_after(nx.0, nx.1, n, len, (k - 1) as nat));
    if counter + 1 < len {
        lemma_rest_of_step(counter + 1, step, n, len);
        assert((k - 1) as nat == (len - (counter + 1)) as nat);
    } else {
        assert(boundaries(0, (step + 1) % n, n, len, 0) == 0);
        assert(clock_after(0, (step + 1) % n, n, len, 0) == (0int, (step + 1) % n));
    }
}

/// Whole steps add up: `m` steps' worth of ticks from a step start hold
/// exactly `m` step-boundary events.
pub proof fn lemma_boundaries_per_steps(step: int, n: int, len: int, m: nat)
    requires
        n > 0,
        0 <= step < n,
        len >= 1,
    ensures
        boundaries(0, step, n, len, m * len as nat) == m,
        clock_after(0, step, n, len, m * len as nat) == (0int, (step + m) % n),
    decreases m,
{
    if m == 0 {
        assert(m * len as nat == 0);
        assert(step % n == step) by {
            vstd::arithmetic::div_mod::lemma_small_mod(step as nat, n as nat);
        }
    } else {
        lemma_one_boundary_per_step(step, n, len);
        let s1 = (step + 1) % n;
        lemma_boundaries_per_steps(s1, n, len, (m - 1) as nat);
        lemma_split(0, step, n, len, len as nat, ((m - 1) * len) as nat);
        assert(m * len == len + (m - 1) * len) by (nonlinear_arith)
            requires
                m > 0,
        ;
        assert((m - 1) * len >= 0) by (nonlinear_arith)
            requires
                m > 0,
                len >= 1,
        ;
        assert((s1 + (m - 1)) % n == (step + m) % n) by {
            vstd::arithmetic::div_mod::lemma_add_mod_noop(step + 1, (m - 1) as int, n);
            vstd::arithmetic::div_mod::lemma_mod_twice(step + 1, n);
            vstd::arithmetic::div_mod::lemma_add_mod_noop(s1, (m - 1) as int, n);
        }
    }
}

/// Ticks split at any point: the counts add and the states compose.
proof fn lemma_split(counter: int, step: int, n: int, len: int, a: nat, b: nat)
    ensures
        boundaries(counter, step, n, len, a + b) == boundaries(counter, step, n, len, a)
            + boundaries(clock_after(counter, step, n, len, a).0, clock_after(counter, step, n, len, a).1, n, len, b),
        clock_after(counter, step, n, len, a + b) == clock_after(
            clock_after(counter, step, n, len, a).0,
            clock_after(counter, step, n, len, a).1,
            n,
            len,
            b,
        ),
    decreases a,
{
    if a > 0 {
        let nx = clock_next(counter, step, n, len);
        lemma_split(nx.0, nx.1, n, len, (a - 1) as nat, b);
        assert((a + b - 1) as nat == (a - 1) as nat + b);
    }
}

} // verus!
