use vstd::prelude::*;

verus! {

/// The value of a countdown timer one tick (1/60 s) later: one less,
/// and never below zero.
pub open spec fn ticked(value: u8) -> u8 {
    if value > 0 {
        (value - 1) as u8
    } else {
        0
    }
}

/// The value of a countdown timer that starts at `value` after `n` ticks.
pub open spec fn after_ticks(value: u8, n: nat) -> u8
    decreases n,
{
    if n == 0 {
        value
    } else {
        ticked(after_ticks(value, (n - 1) as nat))
    }
}

/// One tick of a countdown timer: a nonzero value goes down by one, zero stays.
pub fn tick(value: u8) -> (r: u8)
    ensures
        r == ticked(value),
{
    if value > 0 {
        value - 1
    } else {
        0
    }
}

/// After `n` ticks a timer that started at `value` holds `value - n`, or zero
/// once `n` reaches `value`.
pub proof fn lemma_after_ticks(value: u8, n: nat)
    ensures
        after_ticks(value, n) == if n <= value {
            value - n
        } else {
            0
        },
    decreases n,
{
    if n > 0 {
        lemma_after_ticks(value, (n - 1) as nat);
    }
}

/// A timer started at any `n > 0` reaches zero after exactly `n` ticks, is
/// nonzero before that, and stays at zero for every later tick.
pub proof fn lemma_timer_runs_down(n: u8, extra: nat)
    requires
        n > 0,
    ensures
        after_ticks(n, n as nat) == 0,
        after_ticks(n, (n + extra) as nat) == 0,
        forall|k: nat| k < n ==> #[trigger] after_ticks(n, k) > 0,
        forall|k: nat| #[trigger] after_ticks(n, k + 1) <= after_ticks(n, k),
{
    lemma_after_ticks(n, n as nat);
    lemma_after_ticks(n, (n + extra) as nat);
    assert forall|k: nat| k < n implies #[trigger] after_ticks(n, k) > 0 by {
        lemma_after_ticks(n, k);
    }
    assert forall|k: nat| #[trigger] after_ticks(n, k + 1) <= after_ticks(n, k) by {
        lemma_after_ticks(n, k);
        lemma_after_ticks(n, k + 1);
    }
}

} // verus!
