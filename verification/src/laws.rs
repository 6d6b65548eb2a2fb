//! General properties of the emulator, stated over the model and proved
//! once and for all: saturation of next-state writes, idempotence of
//! queries, determinism of whole runs, and the exact off-by-one boundary
//! of idle decay.

use vstd::prelude::*;

use crate::model::{
    add_to_next, current_of, cycle, discharge_of, idle_step, run, sat_i8, set_next, stim_ok,
    wrap_i16, wrap_inc_u8, CtmView, MAX_IDLE_TICKS,
};

verus! {

/// After any next-state write, a neuron's stored value is the written
/// value saturated to [-128, 127]; a muscle's value is stored as given,
/// unconstrained within the signed 16-bit range.
pub proof fn lemma_set_next_saturates(s: CtmView, id: int, val: i16)
    requires
        s.wf(),
        0 <= id < s.cells(),
    ensures
        id < s.neurons ==> set_next(s, id, val).nnext[id] == sat_i8(val as int),
        id < s.neurons ==> -128 <= set_next(s, id, val).nnext[id] <= 127,
        id >= s.neurons ==> set_next(s, id, val).mnext[id - s.neurons] == val,
{
}

/// Accumulating into next state obeys the same rule: a neuron's entry is
/// the saturated sum and stays in [-128, 127]; a muscle's entry is the
/// 16-bit wrapped sum.
pub proof fn lemma_add_to_next_saturates(s: CtmView, id: int, delta: i8)
    requires
        s.wf(),
        0 <= id < s.cells(),
    ensures
        id < s.neurons ==> add_to_next(s, id, delta).nnext[id] == sat_i8(s.nnext[id] + delta),
        id < s.neurons ==> -128 <= add_to_next(s, id, delta).nnext[id] <= 127,
        id >= s.neurons ==> add_to_next(s, id, delta).mnext[id - s.neurons] == wrap_i16(
            s.mnext[id - s.neurons] + delta,
        ),
{
}

/// Querying is idempotent: between cycles, two reads of the same entity's
/// weight or of the same neuron's discharge flag see the same value,
/// because both queries are pure functions of the settled state, which
/// only a cycle changes.
pub proof fn lemma_query_idempotent(s: CtmView, id: int, w1: i16, w2: i16, d1: u8, d2: u8)
    requires
        w1 == current_of(s, id),
        w2 == current_of(s, id),
        d1 == discharge_of(s, id),
        d2 == discharge_of(s, id),
    ensures
        w1 == w2,
        d1 == d2,
{
}

/// One cycle is deterministic: identical states under identical
/// stimulation sets step to identical states.
pub proof fn lemma_cycle_deterministic(s1: CtmView, s2: CtmView, stim1: Seq<u16>, stim2: Seq<u16>)
    requires
        s1 == s2,
        stim1 == stim2,
    ensures
        cycle(s1, stim1) == cycle(s2, stim2),
{
}

/// A whole run is deterministic: an identical ROM and initial state and
/// an identical sequence of stimulation sets yield identical states after
/// every prefix of the run, hence bit-identical settled buffers and
/// discharge flags at every step.
pub proof fn lemma_run_deterministic(
    s1: CtmView,
    s2: CtmView,
    stims1: Seq<Seq<u16>>,
    stims2: Seq<Seq<u16>>,
)
    requires
        s1 == s2,
        stims1 == stims2,
    ensures
        forall|k: int|
            0 <= k <= stims1.len() ==> #[trigger] run(s1, stims1.take(k)) == run(
                s2,
                stims2.take(k),
            ),
{
}

/// The idle-decay boundary for a neuron whose state did not change this
/// cycle. With `t` unchanged cycles counted before this one, the neuron
/// is left alone while `t + 1` is at most the idle threshold, and is
/// force-reset to zero exactly when `t + 1` first exceeds it — so a
/// neuron unchanged for exactly `MAX_IDLE_TICKS` cycles is not yet reset,
/// and the next unchanging cycle resets it.
pub proof fn lemma_idle_boundary(s: CtmView, i: int)
    requires
        s.wf(),
        0 <= i < s.neurons,
        s.nnext[i] == s.ncur[i],
    ensures
        ({
            let t = s.meta[i] & 0x7f;
            &&& t + 1 <= MAX_IDLE_TICKS ==> idle_step(s, i).nnext == s.nnext
            &&& t + 1 <= MAX_IDLE_TICKS ==> idle_step(s, i).meta[i] == wrap_inc_u8(s.meta[i])
            &&& t + 1 > MAX_IDLE_TICKS ==> idle_step(s, i).nnext[i] == 0
            &&& t + 1 > MAX_IDLE_TICKS ==> idle_step(s, i).meta[i] == s.meta[i] & 0x80
        }),
{
    let m = s.meta[i];
    assert(m & 0x7f <= 0x7f) by (bit_vector);
    assert(idle_step(s, i).nnext =~= s.nnext || idle_step(s, i).nnext =~= s.nnext.update(
        i,
        sat_i8(0),
    ));
}

/// A neuron whose state did change this cycle has its idle counter
/// dropped to zero, keeping only the discharge-flag bit.
pub proof fn lemma_idle_reset_on_change(s: CtmView, i: int)
    requires
        s.wf(),
        0 <= i < s.neurons,
        s.nnext[i] != s.ncur[i],
        s.meta[i] & 0x7f <= MAX_IDLE_TICKS,
    ensures
        idle_step(s, i).meta[i] == s.meta[i] & 0x80,
        idle_step(s, i).nnext == s.nnext,
{
}

} // verus!
