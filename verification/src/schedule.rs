//! The batch scheduler: partitions an ordered input of `n` work items into
//! consecutive waves of at most `width` items each. A wave's items run
//! concurrently; wave `k + 1` does not start before wave `k` has drained, so
//! at most `width` operations are ever in flight.

use vstd::prelude::*;

verus! {

/// How many waves it takes to cover `n` items at `width` items per wave.
pub open spec fn wave_count(n: nat, width: nat) -> nat
    recommends
        width >= 1,
    decreases n,
{
    if width == 0 {
        0
    } else if n == 0 {
        0
    } else if n <= width {
        1
    } else {
        1 + wave_count((n - width) as nat, width)
    }
}

/// The half-open index range `[start, end)` of wave `i`.
pub open spec fn wave_at(n: int, width: int, i: int) -> (int, int) {
    let start = i * width;
    let end = if n < start + width {
        n
    } else {
        start + width
    };
    (start, end)
}

/// Compute the wave boundaries for `n` items at `width` per wave: wave `i`
/// covers the input indices `[waves[i].0, waves[i].1)`. The waves tile
/// `[0, n)` in order, every wave is non-empty, and no wave holds more than
/// `width` items.
pub fn wave_bounds(n: usize, width: usize) -> (waves: Vec<(usize, usize)>)
    requires
        width >= 1,
    ensures
        waves@.len() == wave_count(n as nat, width as nat),
        forall|i: int|
            0 <= i < waves@.len() ==> (#[trigger] waves@[i]).0 == wave_at(
                n as int,
                width as int,
                i,
            ).0 && waves@[i].1 == wave_at(n as int, width as int, i).1,
        forall|i: int|
            0 <= i < waves@.len() ==> (#[trigger] waves@[i]).0 < waves@[i].1 && waves@[i].1
                - waves@[i].0 <= width,
{
    let mut waves: Vec<(usize, usize)> = Vec::new();
    let mut start: usize = 0;
    proof {
        assert(0 * width == 0) by (nonlinear_arith);
    }
    while start < n
        invariant
            width >= 1,
            start <= n,
            start == waves@.len() * width || (start == n && waves@.len() >= 1 && (waves@.len() - 1)
                * width < n <= waves@.len() * width),
            wave_count(n as nat, width as nat) == waves@.len() + wave_count(
                (n - start) as nat,
                width as nat,
            ),
            forall|i: int|
                0 <= i < waves@.len() ==> (#[trigger] waves@[i]).0 == wave_at(
                    n as int,
                    width as int,
                    i,
                ).0 && waves@[i].1 == wave_at(n as int, width as int, i).1,
        decreases n - start,
    {
        let remaining = n - start;
        let end = if remaining > width {
            start + width
        } else {
            n
        };
        proof {
            assert(start == waves@.len() * width);
            assert(wave_at(n as int, width as int, waves@.len() as int).0 == start);
            assert(wave_at(n as int, width as int, waves@.len() as int).1 == end);
            assert((waves@.len() + 1) * width == waves@.len() * width + width) by (nonlinear_arith);
        }
        waves.push((start, end));
        start = end;
    }
    proof {
        assert forall|i: int|
            0 <= i < waves@.len() implies (#[trigger] waves@[i]).0 < waves@[i].1 && waves@[i].1
            - waves@[i].0 <= width by {
            lemma_wave_start_lt_n(n as nat, width as nat, i);
        }
    }
    waves
}

/// Full concurrency: when the width is at least the number of items (and
/// there is at least one item), everything runs in a single wave.
pub proof fn lemma_single_wave(n: nat, width: nat)
    requires
        width >= 1,
        1 <= n <= width,
    ensures
        wave_count(n, width) == 1,
{
}

/// Strict sequential execution: at width one, there are as many waves as
/// items, so no two operations are ever in flight together.
pub proof fn lemma_sequential_waves(n: nat)
    ensures
        wave_count(n, 1) == n,
    decreases n,
{
    if n > 0 {
        lemma_sequential_waves((n - 1) as nat);
    }
}

/// The wave count is the ceiling of `n / width`.
pub proof fn lemma_wave_count_is_ceil(n: nat, width: nat)
    requires
        width >= 1,
    ensures
        wave_count(n, width) == (n + width - 1) / width as int,
    decreases n,
{
    if n == 0 {
        assert((0 + width - 1) / width as int == 0) by (nonlinear_arith)
            requires
                width >= 1,
        ;
    } else if n <= width {
        assert((n + width - 1) / width as int == 1) by (nonlinear_arith)
            requires
                width >= 1 && 1 <= n <= width,
        ;
    } else {
        lemma_wave_count_is_ceil((n - width) as nat, width);
        assert((n + width - 1) / width as int == 1 + (n - width + width - 1) / width as int)
            by (nonlinear_arith)
            requires
                width >= 1 && n > width,
        ;
    }
}

/// Run the work function `f` over every item, wave by wave: the single reusable
/// piece of the pipeline. Every item yields exactly one result, in input
/// order; the work function absorbs its own failures into the result value,
/// so all `n` results are always produced.
pub fn run_schedule<T, R, F: Fn(&T) -> R>(items: &Vec<T>, width: usize, f: F) -> (results: Vec<R>)
    requires
        width >= 1,
        forall|i: int| 0 <= i < items@.len() ==> f.requires((&items@[i],)),
    ensures
        results@.len() == items@.len(),
        forall|i: int|
            0 <= i < items@.len() ==> f.ensures((&items@[i],), #[trigger] results@[i]),
{
    let waves = wave_bounds(items.len(), width);
    let mut results: Vec<R> = Vec::new();
    let mut w: usize = 0;
    proof {
        assert(0 * width == 0) by (nonlinear_arith);
    }
    while w < waves.len()
        invariant
            waves@.len() == wave_count(items@.len() as nat, width as nat),
            width >= 1,
            w <= waves@.len(),
            forall|i: int|
                0 <= i < waves@.len() ==> (#[trigger] waves@[i]).0 == wave_at(
                    items@.len() as int,
                    width as int,
                    i,
                ).0 && waves@[i].1 == wave_at(items@.len() as int, width as int, i).1,
            results@.len() == if w < waves@.len() {
                waves@[w as int].0 as int
            } else {
                items@.len() as int
            },
            forall|i: int| 0 <= i < items@.len() ==> f.requires((&items@[i],)),
            forall|i: int|
                0 <= i < results@.len() ==> f.ensures((&items@[i],), #[trigger] results@[i]),
        decreases waves@.len() - w,
    {
        let (start, end) = waves[w];
        proof {
            lemma_wave_start_lt_n(items@.len() as nat, width as nat, w as int);
        }
        let mut j: usize = start;
        while j < end
            invariant
                start <= j <= end <= items@.len(),
                results@.len() == j,
                forall|i: int| 0 <= i < items@.len() ==> f.requires((&items@[i],)),
                forall|i: int|
                    0 <= i < results@.len() ==> f.ensures((&items@[i],), #[trigger] results@[i]),
            decreases end - j,
        {
            let r = f(&items[j]);
            results.push(r);
            j += 1;
        }
        proof {
            let n = items@.len() as nat;
            if w + 1 < waves@.len() {
                lemma_wave_start_lt_n(n, width as nat, w + 1);
                assert((w + 1) * width == w * width + width) by (nonlinear_arith);
            } else {
                lemma_wave_capacity(n, width as nat);
                lemma_wave_start_lt_n(n, width as nat, w as int);
                assert(wave_count(n, width as nat) * width == w * width + width)
                    by (nonlinear_arith)
                    requires
                        w + 1 == wave_count(n, width as nat),
                ;
            }
        }
        w += 1;
    }
    results
}

/// Every wave that exists starts strictly inside the input.
pub proof fn lemma_wave_start_lt_n(n: nat, width: nat, i: int)
    requires
        width >= 1,
        0 <= i < wave_count(n, width),
    ensures
        i * width < n,
    decreases n,
{
    if i == 0 {
        assert(0 * width == 0) by (nonlinear_arith);
    } else {
        lemma_wave_start_lt_n((n - width) as nat, width, i - 1);
        assert(i * width == (i - 1) * width + width) by (nonlinear_arith);
    }
}

/// The waves together have room for all `n` items.
pub proof fn lemma_wave_capacity(n: nat, width: nat)
    requires
        width >= 1,
    ensures
        n <= wave_count(n, width) * width,
    decreases n,
{
    if n == 0 {
        assert(wave_count(n, width) * width >= 0) by (nonlinear_arith);
    } else if n <= width {
        assert(1 * width == width) by (nonlinear_arith);
    } else {
        lemma_wave_capacity((n - width) as nat, width);
        assert(wave_count(n, width) * width == wave_count((n - width) as nat, width) * width
            + width) by (nonlinear_arith)
            requires
                wave_count(n, width) == 1 + wave_count((n - width) as nat, width),
        ;
    }
}

} // verus!
