//! The mathematical model of the emulator.
//!
//! `CtmView` is the abstract state: the ROM words, the entity counts, the
//! double-buffered neuron and muscle values, and the per-neuron metadata
//! byte. The spec functions here define, as pure state transformers, every
//! phase of a cycle — single-cell writes, connection propagation,
//! the threshold scan, idle decay, and the buffer swap — and a full cycle
//! as their composition. The executable code in `emulator` is proved to
//! follow these transformers exactly.

use vstd::prelude::*;

use crate::decode::{decode_id, decode_weight};

verus! {

/// A neuron whose settled state exceeds this value discharges during the
/// threshold scan.
pub const DISCHARGE_THRESHOLD: i16 = 30;

/// A neuron whose idle-tick count exceeds this value has its next state
/// forced to zero.
pub const MAX_IDLE_TICKS: u8 = 100;

/// The abstract state of the emulator.
#[verifier::ext_equal]
pub struct CtmView {
    /// The read-only table of packed words.
    pub rom: Seq<u16>,
    /// Number of neurons; entities `0..neurons` are neurons.
    pub neurons: nat,
    /// Number of muscles; entities `neurons..neurons + muscles` are muscles.
    pub muscles: nat,
    /// Settled neuron states, one signed saturating byte each.
    pub ncur: Seq<i8>,
    /// Neuron states being accumulated for the next cycle.
    pub nnext: Seq<i8>,
    /// Settled muscle states, one signed 16-bit word each.
    pub mcur: Seq<i16>,
    /// Muscle states being accumulated for the next cycle.
    pub mnext: Seq<i16>,
    /// Per-neuron metadata: the high bit is the discharge flag, the low
    /// seven bits are the idle-tick counter.
    pub meta: Seq<u8>,
}

/// All connection targets of neuron `i` lie inside the entity space.
pub open spec fn neuron_targets_ok(rom: Seq<u16>, i: int, cells: int) -> bool {
    forall|j: int|
        rom[i + 1] <= j < rom[i + 2] ==> (#[trigger] decode_id(rom[j])) < cells
}

/// The ROM is well formed for `n` neurons over `cells` entities: word 0
/// holds the neuron count, the offset table has an entry pair for every
/// neuron, every connection list lies inside the table, and every decoded
/// target id addresses an existing entity.
pub open spec fn rom_wf(rom: Seq<u16>, n: int, cells: int) -> bool {
    &&& rom.len() >= 1
    &&& rom[0] == n
    &&& n + 2 <= rom.len()
    &&& forall|i: int|
        0 <= i < n ==> #[trigger] rom[i + 1] <= rom[i + 2] && rom[i + 2] <= rom.len()
    &&& forall|i: int| 0 <= i < n ==> #[trigger] neuron_targets_ok(rom, i, cells)
}

impl CtmView {
    /// The total number of addressable entities.
    pub open spec fn cells(self) -> int {
        self.neurons + self.muscles as int
    }

    /// Well-formedness: buffer lengths match the counts, the counts fit
    /// the id space, and the ROM is well formed.
    pub open spec fn wf(self) -> bool {
        &&& self.ncur.len() == self.neurons
        &&& self.nnext.len() == self.neurons
        &&& self.mcur.len() == self.muscles
        &&& self.mnext.len() == self.muscles
        &&& self.meta.len() == self.neurons
        &&& self.muscles <= 0xff
        &&& self.neurons + self.muscles <= 0xffff
        &&& rom_wf(self.rom, self.neurons as int, self.cells())
    }

    /// Number of connection records of neuron `id`.
    pub open spec fn conn_len(self, id: int) -> int {
        self.rom[id + 2] - self.rom[id + 1]
    }

    /// The `k`-th connection word of neuron `id`.
    pub open spec fn conn_word(self, id: int, k: int) -> u16 {
        self.rom[self.rom[id + 1] + k]
    }
}

/// The state of an entity as observed through the query interface:
/// a neuron's byte widened to 16 bits, or a muscle's word as stored.
pub open spec fn current_of(s: CtmView, id: int) -> i16 {
    if id < s.neurons {
        s.ncur[id] as i16
    } else {
        s.mcur[id - s.neurons] as i16
    }
}

/// The accumulating next state of an entity, widened the same way.
pub open spec fn next_of(s: CtmView, id: int) -> i16 {
    if id < s.neurons {
        s.nnext[id] as i16
    } else {
        s.mnext[id - s.neurons] as i16
    }
}

/// The discharge flag of neuron `id`: the top bit of its metadata byte.
pub open spec fn discharge_of(s: CtmView, id: int) -> u8 {
    s.meta[id] >> 7
}

/// Saturate a value to the signed byte range [-128, 127].
pub open spec fn sat_i8(v: int) -> i8 {
    if v > 127 {
        127i8
    } else if v < -128 {
        -128i8
    } else {
        v as i8
    }
}

/// Wrap a value into the signed 16-bit range, for sums of one muscle word
/// and one signed byte.
pub open spec fn wrap_i16(v: int) -> i16 {
    if v > 32767 {
        (v - 65536) as i16
    } else if v < -32768 {
        (v + 65536) as i16
    } else {
        v as i16
    }
}

/// Increment a metadata byte, wrapping at 255 and deliberately allowed to
/// spill from the idle counter into the discharge-flag bit.
pub open spec fn wrap_inc_u8(m: u8) -> u8 {
    if m == 255 {
        0u8
    } else {
        (m + 1) as u8
    }
}

/// Write `val` to the next state of entity `id`: saturated to a signed
/// byte for a neuron, stored as given for a muscle.
pub open spec fn set_next(s: CtmView, id: int, val: i16) -> CtmView {
    if id < s.neurons {
        CtmView { nnext: s.nnext.update(id, sat_i8(val as int)), ..s }
    } else {
        CtmView { mnext: s.mnext.update(id - s.neurons, val), ..s }
    }
}

/// Add `delta` to the next state of entity `id` through the same
/// saturation rule; a muscle sum wraps in 16 bits.
pub open spec fn add_to_next(s: CtmView, id: int, delta: i8) -> CtmView {
    if id < s.neurons {
        CtmView { nnext: s.nnext.update(id, sat_i8(s.nnext[id] + delta)), ..s }
    } else {
        CtmView {
            mnext: s.mnext.update(id - s.neurons, wrap_i16(s.mnext[id - s.neurons] + delta)),
            ..s
        }
    }
}

/// Propagate the first `k` connections of neuron `id`, in record order.
pub open spec fn ping_upto(s: CtmView, id: int, k: nat) -> CtmView
    decreases k,
{
    if k == 0 {
        s
    } else {
        let prev = ping_upto(s, id, (k - 1) as nat);
        let w = s.conn_word(id, k - 1);
        add_to_next(prev, decode_id(w) as int, decode_weight(w))
    }
}

/// Propagate all outgoing connections of neuron `id` into next state.
pub open spec fn ping(s: CtmView, id: int) -> CtmView {
    ping_upto(s, id, s.conn_len(id) as nat)
}

/// Discharge neuron `id`: propagate its connections, then reset its own
/// next state to zero.
pub open spec fn discharge(s: CtmView, id: int) -> CtmView {
    set_next(ping(s, id), id, 0)
}

/// Set or clear the discharge flag of neuron `id`. Setting it wipes the
/// idle counter; clearing it leaves the counter untouched.
pub open spec fn flag_discharge(s: CtmView, id: int, discharged: bool) -> CtmView {
    if discharged {
        CtmView { meta: s.meta.update(id, 0x80u8), ..s }
    } else {
        CtmView { meta: s.meta.update(id, (s.meta[id] & 0x7f) as u8), ..s }
    }
}

/// The threshold scan over the first `k` neurons, in id order: a neuron
/// whose settled state exceeds the threshold discharges and has its flag
/// set; otherwise its flag is cleared.
pub open spec fn scan_upto(s: CtmView, k: nat) -> CtmView
    decreases k,
{
    if k == 0 {
        s
    } else {
        let prev = scan_upto(s, (k - 1) as nat);
        let i = k - 1;
        if prev.ncur[i] as i16 > DISCHARGE_THRESHOLD {
            flag_discharge(discharge(prev, i), i, true)
        } else {
            flag_discharge(prev, i, false)
        }
    }
}

/// The idle-decay step for one neuron: if its next state equals its
/// settled state the whole metadata byte is incremented; otherwise the
/// idle counter is dropped, keeping only the flag bit. A counter that has
/// then passed the idle threshold forces the next state to zero and keeps
/// only the flag bit.
pub open spec fn idle_step(s: CtmView, i: int) -> CtmView {
    let m = s.meta[i];
    let low = (m & 0x7f) as u8;
    let high = (m & 0x80) as u8;
    let unchanged = s.nnext[i] == s.ncur[i];
    let m1 = if unchanged {
        wrap_inc_u8(m)
    } else {
        high
    };
    let ticks = if unchanged {
        wrap_inc_u8(low)
    } else {
        low
    };
    let s1 = CtmView { meta: s.meta.update(i, m1), ..s };
    if ticks > MAX_IDLE_TICKS {
        let s2 = set_next(s1, i, 0);
        CtmView { meta: s2.meta.update(i, high), ..s2 }
    } else {
        s1
    }
}

/// Idle decay over the first `k` neurons, in id order.
pub open spec fn idle_upto(s: CtmView, k: nat) -> CtmView
    decreases k,
{
    if k == 0 {
        s
    } else {
        idle_step(idle_upto(s, (k - 1) as nat), k - 1)
    }
}

/// External stimulation: propagate the outgoing connections of the first
/// `k` stimulated ids, in list order.
pub open spec fn stimulate_upto(s: CtmView, stim: Seq<u16>, k: nat) -> CtmView
    decreases k,
{
    if k == 0 {
        s
    } else {
        ping(stimulate_upto(s, stim, (k - 1) as nat), stim[k - 1] as int)
    }
}

/// The buffer swap: settled state becomes the accumulated next state for
/// neurons and muscles, the muscle next buffer is zeroed, and the neuron
/// next buffer and the metadata are left as they are.
pub open spec fn swap_buffers(s: CtmView) -> CtmView {
    CtmView {
        ncur: s.nnext,
        mcur: s.mnext,
        mnext: Seq::new(s.muscles, |i: int| 0i16),
        ..s
    }
}

/// One full cycle: stimulation, threshold scan, idle decay, buffer swap.
pub open spec fn cycle(s: CtmView, stim: Seq<u16>) -> CtmView {
    swap_buffers(idle_upto(scan_upto(stimulate_upto(s, stim, stim.len()), s.neurons), s.neurons))
}

/// A run of consecutive cycles, one stimulation set per cycle.
pub open spec fn run(s: CtmView, stims: Seq<Seq<u16>>) -> CtmView
    decreases stims.len(),
{
    if stims.len() == 0 {
        s
    } else {
        cycle(run(s, stims.drop_last()), stims.last())
    }
}

/// Every id in a stimulation set names a neuron of `s`.
pub open spec fn stim_ok(s: CtmView, stim: Seq<u16>) -> bool {
    forall|k: int| 0 <= k < stim.len() ==> (#[trigger] stim[k]) < s.neurons
}

// ---------------------------------------------------------------------
// Frame lemmas: each phase changes only the buffers it is specified to
// change, and preserves well-formedness.
// ---------------------------------------------------------------------

/// `set_next` changes one next-state entry and nothing else.
pub proof fn lemma_set_next_frame(s: CtmView, id: int, val: i16)
    requires
        s.wf(),
        0 <= id < s.cells(),
    ensures
        set_next(s, id, val).wf(),
        set_next(s, id, val).rom == s.rom,
        set_next(s, id, val).neurons == s.neurons,
        set_next(s, id, val).muscles == s.muscles,
        set_next(s, id, val).ncur == s.ncur,
        set_next(s, id, val).mcur == s.mcur,
        set_next(s, id, val).meta == s.meta,
{
}

/// `add_to_next` changes one next-state entry and nothing else.
pub proof fn lemma_add_to_next_frame(s: CtmView, id: int, delta: i8)
    requires
        s.wf(),
        0 <= id < s.cells(),
    ensures
        add_to_next(s, id, delta).wf(),
        add_to_next(s, id, delta).rom == s.rom,
        add_to_next(s, id, delta).neurons == s.neurons,
        add_to_next(s, id, delta).muscles == s.muscles,
        add_to_next(s, id, delta).ncur == s.ncur,
        add_to_next(s, id, delta).mcur == s.mcur,
        add_to_next(s, id, delta).meta == s.meta,
{
}

/// Propagation changes only next-state buffers.
pub proof fn lemma_ping_upto_frame(s: CtmView, id: int, k: nat)
    requires
        s.wf(),
        0 <= id < s.neurons,
        k <= s.conn_len(id),
    ensures
        ping_upto(s, id, k).wf(),
        ping_upto(s, id, k).rom == s.rom,
        ping_upto(s, id, k).neurons == s.neurons,
        ping_upto(s, id, k).muscles == s.muscles,
        ping_upto(s, id, k).ncur == s.ncur,
        ping_upto(s, id, k).mcur == s.mcur,
        ping_upto(s, id, k).meta == s.meta,
    decreases k,
{
    if k > 0 {
        lemma_ping_upto_frame(s, id, (k - 1) as nat);
        let prev = ping_upto(s, id, (k - 1) as nat);
        let w = s.conn_word(id, k - 1);
        assert(neuron_targets_ok(s.rom, id, s.cells()));
        assert(s.rom[id + 1] <= s.rom[id + 1] + (k - 1) < s.rom[id + 2]);
        assert(decode_id(w) < s.cells());
        lemma_add_to_next_frame(prev, decode_id(w) as int, decode_weight(w));
    }
}

/// Propagating all of a neuron's connections changes only next-state
/// buffers.
pub proof fn lemma_ping_frame(s: CtmView, id: int)
    requires
        s.wf(),
        0 <= id < s.neurons,
    ensures
        ping(s, id).wf(),
        ping(s, id).rom == s.rom,
        ping(s, id).neurons == s.neurons,
        ping(s, id).muscles == s.muscles,
        ping(s, id).ncur == s.ncur,
        ping(s, id).mcur == s.mcur,
        ping(s, id).meta == s.meta,
{
    assert(s.rom[id + 1] <= s.rom[id + 2]);
    lemma_ping_upto_frame(s, id, s.conn_len(id) as nat);
}

/// A discharge changes only next-state buffers.
pub proof fn lemma_discharge_frame(s: CtmView, id: int)
    requires
        s.wf(),
        0 <= id < s.neurons,
    ensures
        discharge(s, id).wf(),
        discharge(s, id).rom == s.rom,
        discharge(s, id).neurons == s.neurons,
        discharge(s, id).muscles == s.muscles,
        discharge(s, id).ncur == s.ncur,
        discharge(s, id).mcur == s.mcur,
        discharge(s, id).meta == s.meta,
{
    lemma_ping_frame(s, id);
    lemma_set_next_frame(ping(s, id), id, 0);
}

/// Setting or clearing a discharge flag changes only the metadata.
pub proof fn lemma_flag_frame(s: CtmView, id: int, discharged: bool)
    requires
        s.wf(),
        0 <= id < s.neurons,
    ensures
        flag_discharge(s, id, discharged).wf(),
        flag_discharge(s, id, discharged).rom == s.rom,
        flag_discharge(s, id, discharged).neurons == s.neurons,
        flag_discharge(s, id, discharged).muscles == s.muscles,
        flag_discharge(s, id, discharged).ncur == s.ncur,
        flag_discharge(s, id, discharged).mcur == s.mcur,
        flag_discharge(s, id, discharged).nnext == s.nnext,
        flag_discharge(s, id, discharged).mnext == s.mnext,
{
}

/// The threshold scan changes only next-state buffers and metadata; the
/// settled buffers it reads stay as they were.
pub proof fn lemma_scan_upto_frame(s: CtmView, k: nat)
    requires
        s.wf(),
        k <= s.neurons,
    ensures
        scan_upto(s, k).wf(),
        scan_upto(s, k).rom == s.rom,
        scan_upto(s, k).neurons == s.neurons,
        scan_upto(s, k).muscles == s.muscles,
        scan_upto(s, k).ncur == s.ncur,
        scan_upto(s, k).mcur == s.mcur,
    decreases k,
{
    if k > 0 {
        lemma_scan_upto_frame(s, (k - 1) as nat);
        let prev = scan_upto(s, (k - 1) as nat);
        let i = k - 1;
        if prev.ncur[i] as i16 > DISCHARGE_THRESHOLD {
            lemma_discharge_frame(prev, i);
            lemma_flag_frame(discharge(prev, i), i, true);
        } else {
            lemma_flag_frame(prev, i, false);
        }
    }
}

/// One idle-decay step changes only one neuron's next state and metadata.
pub proof fn lemma_idle_step_frame(s: CtmView, i: int)
    requires
        s.wf(),
        0 <= i < s.neurons,
    ensures
        idle_step(s, i).wf(),
        idle_step(s, i).rom == s.rom,
        idle_step(s, i).neurons == s.neurons,
        idle_step(s, i).muscles == s.muscles,
        idle_step(s, i).ncur == s.ncur,
        idle_step(s, i).mcur == s.mcur,
        idle_step(s, i).mnext == s.mnext,
{
}

/// Idle decay changes only neuron next states and metadata.
pub proof fn lemma_idle_upto_frame(s: CtmView, k: nat)
    requires
        s.wf(),
        k <= s.neurons,
    ensures
        idle_upto(s, k).wf(),
        idle_upto(s, k).rom == s.rom,
        idle_upto(s, k).neurons == s.neurons,
        idle_upto(s, k).muscles == s.muscles,
        idle_upto(s, k).ncur == s.ncur,
        idle_upto(s, k).mcur == s.mcur,
        idle_upto(s, k).mnext == s.mnext,
    decreases k,
{
    if k > 0 {
        lemma_idle_upto_frame(s, (k - 1) as nat);
        lemma_idle_step_frame(idle_upto(s, (k - 1) as nat), k - 1);
    }
}

/// Stimulation changes only next-state buffers.
pub proof fn lemma_stimulate_upto_frame(s: CtmView, stim: Seq<u16>, k: nat)
    requires
        s.wf(),
        stim_ok(s, stim),
        k <= stim.len(),
    ensures
        stimulate_upto(s, stim, k).wf(),
        stimulate_upto(s, stim, k).rom == s.rom,
        stimulate_upto(s, stim, k).neurons == s.neurons,
        stimulate_upto(s, stim, k).muscles == s.muscles,
        stimulate_upto(s, stim, k).ncur == s.ncur,
        stimulate_upto(s, stim, k).mcur == s.mcur,
        stimulate_upto(s, stim, k).meta == s.meta,
    decreases k,
{
    if k > 0 {
        lemma_stimulate_upto_frame(s, stim, (k - 1) as nat);
        lemma_ping_frame(stimulate_upto(s, stim, (k - 1) as nat), stim[k - 1] as int);
    }
}

/// The buffer swap preserves well-formedness.
pub proof fn lemma_swap_frame(s: CtmView)
    requires
        s.wf(),
    ensures
        swap_buffers(s).wf(),
        swap_buffers(s).rom == s.rom,
        swap_buffers(s).neurons == s.neurons,
        swap_buffers(s).muscles == s.muscles,
        swap_buffers(s).ncur == s.nnext,
        swap_buffers(s).mcur == s.mnext,
        swap_buffers(s).nnext == s.nnext,
        swap_buffers(s).meta == s.meta,
{
}

/// A full cycle preserves well-formedness and never touches the ROM or
/// the entity counts.
pub proof fn lemma_cycle_frame(s: CtmView, stim: Seq<u16>)
    requires
        s.wf(),
        stim_ok(s, stim),
    ensures
        cycle(s, stim).wf(),
        cycle(s, stim).rom == s.rom,
        cycle(s, stim).neurons == s.neurons,
        cycle(s, stim).muscles == s.muscles,
{
    lemma_stimulate_upto_frame(s, stim, stim.len());
    let s1 = stimulate_upto(s, stim, stim.len());
    lemma_scan_upto_frame(s1, s.neurons);
    let s2 = scan_upto(s1, s.neurons);
    lemma_idle_upto_frame(s2, s.neurons);
    let s3 = idle_upto(s2, s.neurons);
    lemma_swap_frame(s3);
}

} // verus!
