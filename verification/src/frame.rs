//! Running the machine for a stretch of time: a number of cycles, with the
//! time of the stretch passing on the timers in between, a share after each
//! cycle.

use vstd::prelude::*;
use crate::env::Env;
use crate::error::Error;
use crate::state::VmState;
use crate::vm::{carried_out, Vm};

verus! {

/// The number of whole cycles that fit in `elapsed_ms` milliseconds at
/// `cycles_per_second`.
pub open spec fn cycles_in(elapsed_ms: nat, cycles_per_second: nat) -> nat {
    elapsed_ms * cycles_per_second / 1000
}

/// The number of whole cycles that fit in `elapsed_ms` milliseconds at
/// `cycles_per_second`.
pub fn cycles_for(elapsed_ms: u32, cycles_per_second: u32) -> (cycles: u64)
    ensures
        cycles == cycles_in(elapsed_ms as nat, cycles_per_second as nat),
{
    assert(elapsed_ms * cycles_per_second <= 0xFFFF_FFFF * 0xFFFF_FFFF) by (nonlinear_arith)
        requires
            0 <= elapsed_ms <= 0xFFFF_FFFF,
            0 <= cycles_per_second <= 0xFFFF_FFFF,
    ;
    elapsed_ms as u64 * cycles_per_second as u64 / 1000
}

/// The time that has passed after the first `k` of `cycles` cycles that
/// share `elapsed` units of time.
pub open spec fn time_until(elapsed: nat, cycles: nat, k: nat) -> nat {
    elapsed * k / cycles
}

/// The share of cycle `k` in the `elapsed` units of time of `cycles`
/// cycles. The shares differ by one unit at most.
pub open spec fn time_share(elapsed: nat, cycles: nat, k: nat) -> nat {
    (time_until(elapsed, cycles, k + 1) - time_until(elapsed, cycles, k)) as nat
}

/// The sum of the shares of the first `k` cycles.
pub open spec fn shares_sum(elapsed: nat, cycles: nat, k: nat) -> nat
    decreases k,
{
    if k == 0 {
        0
    } else {
        shares_sum(elapsed, cycles, (k - 1) as nat) + time_share(elapsed, cycles, (k - 1) as nat)
    }
}

/// The time passes in order.
pub proof fn lemma_time_until_grows(elapsed: nat, cycles: nat, k: nat)
    requires
        cycles > 0,
    ensures
        time_until(elapsed, cycles, k) <= time_until(elapsed, cycles, k + 1),
        time_until(elapsed, cycles, 0) == 0,
        time_until(elapsed, cycles, cycles) == elapsed,
{
    assert(elapsed * k <= elapsed * (k + 1)) by (nonlinear_arith);
    vstd::arithmetic::div_mod::lemma_div_is_ordered(
        (elapsed * k) as int,
        (elapsed * (k + 1)) as int,
        cycles as int,
    );
    assert(elapsed * 0 == 0) by (nonlinear_arith);
    vstd::arithmetic::div_mod::lemma_div_multiples_vanish(elapsed as int, cycles as int);
    assert(elapsed * cycles == cycles * elapsed) by (nonlinear_arith);
}

/// The shares of the first `k` cycles make up the time that has passed
/// after them.
pub proof fn lemma_shares_add_up(elapsed: nat, cycles: nat, k: nat)
    requires
        cycles > 0,
    ensures
        shares_sum(elapsed, cycles, k) == time_until(elapsed, cycles, k),
    decreases k,
{
    lemma_time_until_grows(elapsed, cycles, 0);
    if k > 0 {
        lemma_shares_add_up(elapsed, cycles, (k - 1) as nat);
        lemma_time_until_grows(elapsed, cycles, (k - 1) as nat);
    }
}

/// The shares of all the cycles make up the whole time of the stretch, no
/// more and no less.
pub proof fn lemma_shares_make_the_whole(elapsed: nat, cycles: nat)
    requires
        cycles > 0,
    ensures
        shares_sum(elapsed, cycles, cycles) == elapsed,
{
    lemma_shares_add_up(elapsed, cycles, cycles);
    lemma_time_until_grows(elapsed, cycles, 0);
}

/// The state after the first `k` of `cycles` cycles that share `elapsed`
/// units of time, cycle `i` with the random byte `randoms[i]`; or the error
/// that stopped a cycle, with the state in which it was met.
pub open spec fn after_cycles(
    state: VmState,
    keys: Seq<bool>,
    randoms: Seq<u8>,
    elapsed: nat,
    cycles: nat,
    k: nat,
) -> Result<VmState, (Error, VmState)>
    decreases k,
{
    if k == 0 {
        Ok(state)
    } else {
        match after_cycles(state, keys, randoms, elapsed, cycles, (k - 1) as nat) {
            Err(stopped) => Err(stopped),
            Ok(before) => match before.cycle(keys, randoms[k - 1]) {
                Err(e) => Err((e, before)),
                Ok(after) => Ok(after.after_time(time_share(elapsed, cycles, (k - 1) as nat))),
            },
        }
    }
}

/// The state after a stretch of `cycles` cycles and `elapsed` units of
/// time. With no cycle to run, the time passes all the same.
pub open spec fn after_stretch(
    state: VmState,
    keys: Seq<bool>,
    randoms: Seq<u8>,
    elapsed: nat,
    cycles: nat,
) -> Result<VmState, (Error, VmState)> {
    if cycles == 0 {
        Ok(state.after_time(elapsed))
    } else {
        after_cycles(state, keys, randoms, elapsed, cycles, cycles)
    }
}

/// The first `k` cycles look at the first `k` random bytes only.
pub proof fn lemma_after_cycles_reads_a_prefix(
    state: VmState,
    keys: Seq<bool>,
    one: Seq<u8>,
    other: Seq<u8>,
    elapsed: nat,
    cycles: nat,
    k: nat,
)
    requires
        k <= one.len(),
        k <= other.len(),
        one.take(k as int) == other.take(k as int),
    ensures
        after_cycles(state, keys, one, elapsed, cycles, k) == after_cycles(
            state,
            keys,
            other,
            elapsed,
            cycles,
            k,
        ),
    decreases k,
{
    if k > 0 {
        assert(one.take(k as int).take(k - 1) =~= one.take(k - 1));
        assert(other.take(k as int).take(k - 1) =~= other.take(k - 1));
        lemma_after_cycles_reads_a_prefix(state, keys, one, other, elapsed, cycles, (k - 1) as nat);
        assert(one[k - 1] == one.take(k as int)[k - 1]);
        assert(other[k - 1] == other.take(k as int)[k - 1]);
    }
}

/// Once a cycle has failed, the stretch has failed in the same way.
pub proof fn lemma_after_cycles_stays_stopped(
    state: VmState,
    keys: Seq<bool>,
    randoms: Seq<u8>,
    elapsed: nat,
    cycles: nat,
    k: nat,
    later: nat,
)
    requires
        k <= later,
        after_cycles(state, keys, randoms, elapsed, cycles, k) is Err,
    ensures
        after_cycles(state, keys, randoms, elapsed, cycles, later) == after_cycles(
            state,
            keys,
            randoms,
            elapsed,
            cycles,
            k,
        ),
    decreases later - k,
{
    if k < later {
        lemma_after_cycles_stays_stopped(
            state,
            keys,
            randoms,
            elapsed,
            cycles,
            k,
            (later - 1) as nat,
        );
    }
}

/// The share of cycle `k` in the time of a stretch.
fn share_of(elapsed: u32, cycles: u32, k: u32) -> (share: u32)
    requires
        k < cycles,
    ensures
        share == time_share(elapsed as nat, cycles as nat, k as nat),
{
    proof {
        lemma_time_until_grows(elapsed as nat, cycles as nat, k as nat);
        lemma_time_until_grows(elapsed as nat, cycles as nat, cycles as nat);
        assert(elapsed * (k + 1) <= elapsed * cycles) by (nonlinear_arith)
            requires
                k + 1 <= cycles,
                0 <= elapsed,
        ;
        assert(elapsed * cycles <= 0xFFFF_FFFF * 0xFFFF_FFFF) by (nonlinear_arith)
            requires
                0 <= elapsed <= 0xFFFF_FFFF,
                0 <= cycles <= 0xFFFF_FFFF,
        ;
        assert(elapsed * k <= elapsed * (k + 1)) by (nonlinear_arith)
            requires
                0 <= elapsed,
                0 <= k,
        ;
        vstd::arithmetic::div_mod::lemma_div_is_ordered(
            (elapsed * (k + 1)) as int,
            (elapsed * cycles) as int,
            cycles as int,
        );
    }
    let until: u64 = elapsed as u64 * k as u64 / cycles as u64;
    let next: u64 = elapsed as u64 * (k as u64 + 1) / cycles as u64;
    (next - until) as u32
}

/// What one cycle with the random byte `random`, and `share` units of time
/// after it, make of a state.
pub open spec fn cycle_and_wait(state: VmState, keys: Seq<bool>, random: u8, share: nat) -> Result<
    VmState,
    (Error, VmState),
> {
    match state.cycle(keys, random) {
        Err(e) => Err((e, state)),
        Ok(after) => Ok(after.after_time(share)),
    }
}

/// An outcome `r` with the state `after` is what `expected` asks for.
pub open spec fn stretch_ran(
    expected: Result<VmState, (Error, VmState)>,
    r: Result<(), Error>,
    after: VmState,
) -> bool {
    match expected {
        Ok(state) => r is Ok && after == state,
        Err((e, state)) => r == Err::<(), Error>(e) && after == state,
    }
}

impl Vm {
    /// Runs one cycle and lets `share` units of time pass after it.
    fn run_one(&mut self, env: &mut Env, share: u32) -> (r: (Result<(), Error>, Ghost<u8>))
        ensures
            final(env).keyboard == old(env).keyboard,
            final(self)@.wf(),
            stretch_ran(
                cycle_and_wait(old(self)@, old(env).keyboard@, r.1@, share as nat),
                r.0,
                final(self)@,
            ),
    {
        let ghost before = self@;
        let ghost keys = env.keyboard@;
        let r = self.cycle(env);
        let ghost random = choose|random: u8|
            carried_out(before, #[trigger] before.cycle(keys, random), r, self@);
        match r {
            Ok(()) => {
                self.update_timers(share);
                (Ok(()), Ghost(random))
            },
            Err(e) => (Err(e), Ghost(random)),
        }
    }

    /// Runs the machine for a stretch: `cycles` cycles in the given
    /// surroundings, and after each its share of the `elapsed` units of
    /// time on the timers. The stretch stops at the first cycle that fails,
    /// with that error and the state as that cycle met it.
    pub fn run(&mut self, env: &mut Env, cycles: u32, elapsed: u32) -> (r: Result<(), Error>)
        ensures
            final(env).keyboard == old(env).keyboard,
            final(self)@.wf(),
            exists|randoms: Seq<u8>|
                randoms.len() == cycles && stretch_ran(
                    #[trigger] after_stretch(
                        old(self)@,
                        old(env).keyboard@,
                        randoms,
                        elapsed as nat,
                        cycles as nat,
                    ),
                    r,
                    final(self)@,
                ),
    {
        if cycles == 0 {
            return self.run_none(env, elapsed);
        }
        let ghost start = self@;
        let ghost keys = env.keyboard@;
        let ghost mut randoms: Seq<u8> = Seq::empty();
        let mut k: u32 = 0;
        while k < cycles
            invariant
                k <= cycles,
                cycles > 0,
                start == old(self)@,
                env.keyboard == old(env).keyboard,
                keys == env.keyboard@,
                randoms.len() == k,
                k > 0 ==> self@.wf(),
                after_cycles(start, keys, randoms, elapsed as nat, cycles as nat, k as nat) == Ok::<
                    VmState,
                    (Error, VmState),
                >(self@),
            decreases cycles - k,
        {
            let share: u32 = share_of(elapsed, cycles, k);
            let (r, Ghost(random)) = self.run_one(env, share);
            proof {
                lemma_one_more_cycle(
                    start,
                    keys,
                    randoms,
                    random,
                    elapsed as nat,
                    cycles as nat,
                    k as nat,
                );
                randoms = randoms.push(random);
            }
            if r.is_err() {
                proof {
                    lemma_stopped_stretch(
                        start,
                        keys,
                        randoms,
                        elapsed as nat,
                        cycles as nat,
                        (k + 1) as nat,
                        r,
                        self@,
                    );
                }
                return r;
            }
            k = k + 1;
        }
        proof {
            lemma_whole_stretch(start, keys, randoms, elapsed as nat, cycles as nat, self@);
        }
        Ok(())
    }

    /// A stretch without a cycle: the time passes.
    fn run_none(&mut self, env: &mut Env, elapsed: u32) -> (r: Result<(), Error>)
        ensures
            final(env).keyboard == old(env).keyboard,
            final(self)@.wf(),
            exists|randoms: Seq<u8>|
                randoms.len() == 0 && stretch_ran(
                    #[trigger] after_stretch(
                        old(self)@,
                        old(env).keyboard@,
                        randoms,
                        elapsed as nat,
                        0,
                    ),
                    r,
                    final(self)@,
                ),
    {
        self.update_timers(elapsed);
        assert(stretch_ran(
            after_stretch(old(self)@, env.keyboard@, Seq::<u8>::empty(), elapsed as nat, 0),
            Ok::<(), Error>(()),
            self@,
        ));
        Ok(())
    }
}

/// A stretch all of whose cycles have run has run.
proof fn lemma_whole_stretch(
    state: VmState,
    keys: Seq<bool>,
    randoms: Seq<u8>,
    elapsed: nat,
    cycles: nat,
    after: VmState,
)
    requires
        cycles > 0,
        randoms.len() == cycles,
        after_cycles(state, keys, randoms, elapsed, cycles, cycles) == Ok::<
            VmState,
            (Error, VmState),
        >(after),
    ensures
        exists|all: Seq<u8>|
            all.len() == cycles && stretch_ran(
                #[trigger] after_stretch(state, keys, all, elapsed, cycles),
                Ok::<(), Error>(()),
                after,
            ),
{
    assert(stretch_ran(
        after_stretch(state, keys, randoms, elapsed, cycles),
        Ok::<(), Error>(()),
        after,
    ));
}

/// The first `k + 1` cycles are the first `k` and one more.
proof fn lemma_one_more_cycle(
    state: VmState,
    keys: Seq<bool>,
    randoms: Seq<u8>,
    random: u8,
    elapsed: nat,
    cycles: nat,
    k: nat,
)
    requires
        randoms.len() == k,
        after_cycles(state, keys, randoms, elapsed, cycles, k) is Ok,
    ensures
        after_cycles(state, keys, randoms.push(random), elapsed, cycles, k + 1) == cycle_and_wait(
            after_cycles(state, keys, randoms, elapsed, cycles, k)->Ok_0,
            keys,
            random,
            time_share(elapsed, cycles, k),
        ),
{
    let longer = randoms.push(random);
    assert(longer.take(k as int) =~= randoms.take(k as int));
    lemma_after_cycles_reads_a_prefix(state, keys, longer, randoms, elapsed, cycles, k);
}

/// A stretch whose first `k` cycles have stopped has stopped in the same
/// way, whatever random bytes would have come after.
proof fn lemma_stopped_stretch(
    state: VmState,
    keys: Seq<bool>,
    randoms: Seq<u8>,
    elapsed: nat,
    cycles: nat,
    k: nat,
    r: Result<(), Error>,
    after: VmState,
)
    requires
        0 < k <= cycles,
        randoms.len() == k,
        r is Err,
        stretch_ran(after_cycles(state, keys, randoms, elapsed, cycles, k), r, after),
    ensures
        exists|all: Seq<u8>|
            all.len() == cycles && stretch_ran(
                #[trigger] after_stretch(state, keys, all, elapsed, cycles),
                r,
                after,
            ),
{
    let all = randoms + Seq::new((cycles - k) as nat, |i: int| 0u8);
    assert(all.take(k as int) =~= randoms.take(k as int));
    lemma_after_cycles_reads_a_prefix(state, keys, all, randoms, elapsed, cycles, k);
    lemma_after_cycles_stays_stopped(state, keys, all, elapsed, cycles, k, cycles);
    assert(all.len() == cycles);
    assert(stretch_ran(after_stretch(state, keys, all, elapsed, cycles), r, after));
}

} // verus!
