//! The executable emulator: the `Connectome` struct, its constructor, the
//! cycle engine, and the read-only query interface.
//!
//! Every method is proved to follow the state transformers of `model`
//! exactly; `neural_cycle` in particular realizes `model::cycle`.

use vstd::prelude::*;

use crate::decode::{decode_id, parse_rom_word};
use crate::model::{
    add_to_next, current_of, cycle, discharge, discharge_of, flag_discharge, idle_step, idle_upto,
    lemma_cycle_frame, lemma_discharge_frame, lemma_ping_frame, lemma_scan_upto_frame,
    lemma_stimulate_upto_frame, neuron_targets_ok, next_of, ping, ping_upto, rom_wf, scan_upto,
    set_next, stim_ok, stimulate_upto, swap_buffers, CtmView, DISCHARGE_THRESHOLD, MAX_IDLE_TICKS,
};

verus! {

/// Why a ROM was rejected at construction.
#[derive(Copy, Clone, Debug, PartialEq, Eq, Structural)]
pub enum RomError {
    /// The table is too short for its neuron count, or the counts are
    /// inconsistent with the total entity count.
    BadLayout,
    /// Some neuron's connection-list bounds are reversed or point past
    /// the end of the table.
    BadOffsets,
    /// Some connection record decodes to a target id outside the entity
    /// space.
    BadTarget,
}

/// The counts of a ROM are consistent: word 0 exists and holds a neuron
/// count no larger than the entity count, the muscle count fits a byte,
/// and the offset table fits in the table.
pub open spec fn rom_layout_ok(rom: Seq<u16>, cells: u16) -> bool {
    &&& rom.len() >= 1
    &&& rom[0] <= cells
    &&& cells - rom[0] <= 255
    &&& rom[0] + 2 <= rom.len()
}

/// Every neuron's connection-list bounds are ordered and inside the table.
pub open spec fn rom_offsets_ok(rom: Seq<u16>) -> bool {
    forall|i: int|
        0 <= i < rom[0] ==> #[trigger] rom[i + 1] <= rom[i + 2] && rom[i + 2] <= rom.len()
}

/// Every connection record decodes to a target inside the entity space.
pub open spec fn rom_targets_ok(rom: Seq<u16>, cells: u16) -> bool {
    forall|i: int| 0 <= i < rom[0] ==> #[trigger] neuron_targets_ok(rom, i, cells as int)
}

/// A ROM is accepted by the constructor exactly when all three checks
/// hold.
pub open spec fn rom_ok(rom: Seq<u16>, cells: u16) -> bool {
    &&& rom_layout_ok(rom, cells)
    &&& rom_offsets_ok(rom)
    &&& rom_targets_ok(rom, cells)
}

/// The state of a freshly constructed emulator: counts from the ROM, all
/// buffers zeroed.
pub open spec fn initial_view(rom: Seq<u16>, cells: u16) -> CtmView {
    CtmView {
        rom: rom,
        neurons: rom[0] as nat,
        muscles: (cells - rom[0]) as nat,
        ncur: Seq::new(rom[0] as nat, |i: int| 0i8),
        nnext: Seq::new(rom[0] as nat, |i: int| 0i8),
        mcur: Seq::new((cells - rom[0]) as nat, |i: int| 0i16),
        mnext: Seq::new((cells - rom[0]) as nat, |i: int| 0i16),
        meta: Seq::new(rom[0] as nat, |i: int| 0u8),
    }
}

/// An accepted ROM yields a well-formed initial state.
pub proof fn lemma_initial_view_wf(rom: Seq<u16>, cells: u16)
    requires
        rom_ok(rom, cells),
    ensures
        initial_view(rom, cells).wf(),
{
}

/// The emulator: the ROM it was built from, the entity partition, the
/// double-buffered neuron and muscle states, and the per-neuron metadata.
#[derive(Debug)]
pub struct Connectome {
    rom: Vec<u16>,
    neurons_tot: u16,
    muscles_tot: u8,
    neuron_current: Vec<i8>,
    neuron_next: Vec<i8>,
    muscle_current: Vec<i16>,
    muscle_next: Vec<i16>,
    meta: Vec<u8>,
}

impl View for Connectome {
    type V = CtmView;

    closed spec fn view(&self) -> CtmView {
        CtmView {
            rom: self.rom@,
            neurons: self.neurons_tot as nat,
            muscles: self.muscles_tot as nat,
            ncur: self.neuron_current@,
            nnext: self.neuron_next@,
            mcur: self.muscle_current@,
            mnext: self.muscle_next@,
            meta: self.meta@,
        }
    }
}

/// A vector of `n` copies of `x`.
fn filled_vec<T: Copy>(n: usize, x: T) -> (v: Vec<T>)
    ensures
        v@ == Seq::new(n as nat, |i: int| x),
{
    let mut v: Vec<T> = Vec::new();
    let mut i: usize = 0;
    while i < n
        invariant
            i == v.len(),
            i <= n,
            v@ == Seq::new(i as nat, |k: int| x),
        decreases n - i,
    {
        v.push(x);
        i = i + 1;
        assert(v@ =~= Seq::new(i as nat, |k: int| x));
    }
    v
}

impl Connectome {
    /// Build an emulator over `cells` entities from a ROM table, deriving
    /// the neuron count from the table's first word and sizing all
    /// buffers once. A malformed table is rejected, and the emulator is
    /// never constructed in an invalid state.
    pub fn new(rom: Vec<u16>, cells: u16) -> (r: Result<Connectome, RomError>)
        ensures
            match r {
                Ok(c) => {
                    &&& rom_ok(rom@, cells)
                    &&& c@ == initial_view(rom@, cells)
                    &&& c@.wf()
                },
                Err(e) => {
                    &&& !rom_ok(rom@, cells)
                    &&& e == (if !rom_layout_ok(rom@, cells) {
                        RomError::BadLayout
                    } else if !rom_offsets_ok(rom@) {
                        RomError::BadOffsets
                    } else {
                        RomError::BadTarget
                    })
                },
            },
    {
        if rom.len() < 1 {
            return Err(RomError::BadLayout);
        }
        let n: u16 = rom[0];
        if !(n <= cells && cells - n <= 255 && rom.len() >= n as usize + 2) {
            return Err(RomError::BadLayout);
        }

        let mut i: u16 = 0;
        while i < n
            invariant
                i <= n,
                rom@.len() >= n + 2,
                n == rom@[0],
                rom_layout_ok(rom@, cells),
                forall|i2: int|
                    0 <= i2 < i ==> #[trigger] rom@[i2 + 1] <= rom@[i2 + 2] && rom@[i2 + 2]
                        <= rom@.len(),
            decreases n - i,
        {
            let a: u16 = rom[i as usize + 1];
            let e: u16 = rom[i as usize + 2];
            if !(a <= e && e as usize <= rom.len()) {
                assert(!rom_offsets_ok(rom@));
                return Err(RomError::BadOffsets);
            }
            i = i + 1;
        }
        assert(rom_offsets_ok(rom@));

        let mut i: u16 = 0;
        while i < n
            invariant
                i <= n,
                rom@.len() >= n + 2,
                n == rom@[0],
                rom_layout_ok(rom@, cells),
                rom_offsets_ok(rom@),
                forall|i2: int| 0 <= i2 < i ==> #[trigger] neuron_targets_ok(rom@, i2, cells as int),
            decreases n - i,
        {
            let a: u16 = rom[i as usize + 1];
            let e: u16 = rom[i as usize + 2];
            let mut j: u16 = a;
            while j < e
                invariant
                    a <= j <= e,
                    rom@.len() >= n + 2,
                    n == rom@[0],
                    rom_layout_ok(rom@, cells),
                    rom_offsets_ok(rom@),
                    i < n,
                    a == rom@[i + 1],
                    e == rom@[i + 2],
                    e <= rom@.len(),
                    forall|j2: int|
                        a <= j2 < j ==> (#[trigger] decode_id(rom@[j2])) < cells,
                decreases e - j,
            {
                let conn = parse_rom_word(rom[j as usize]);
                if conn.id >= cells {
                    assert(!neuron_targets_ok(rom@, i as int, cells as int));
                    assert(!rom_targets_ok(rom@, cells));
                    return Err(RomError::BadTarget);
                }
                j = j + 1;
            }
            assert(neuron_targets_ok(rom@, i as int, cells as int));
            i = i + 1;
        }
        assert(rom_targets_ok(rom@, cells));

        let neurons_usize: usize = n as usize;
        let muscles: u16 = cells - n;
        let muscles_usize: usize = muscles as usize;
        let c = Connectome {
            rom,
            neurons_tot: n,
            muscles_tot: muscles as u8,
            neuron_current: filled_vec(neurons_usize, 0i8),
            neuron_next: filled_vec(neurons_usize, 0i8),
            muscle_current: filled_vec(muscles_usize, 0i16),
            muscle_next: filled_vec(muscles_usize, 0i16),
            meta: filled_vec(neurons_usize, 0u8),
        };
        proof {
            lemma_initial_view_wf(c.rom@, cells);
            assert(c@ =~= initial_view(c.rom@, cells));
        }
        Ok(c)
    }

    /// The settled state of entity `id`, widened to 16 bits.
    fn get_current_state(&self, id: u16) -> (r: i16)
        requires
            self@.wf(),
            id < self@.cells(),
        ensures
            r == current_of(self@, id as int),
    {
        if id < self.neurons_tot {
            self.neuron_current[id as usize] as i16
        } else {
            self.muscle_current[(id - self.neurons_tot) as usize]
        }
    }

    /// The accumulating next state of entity `id`, widened to 16 bits.
    fn get_next_state(&self, id: u16) -> (r: i16)
        requires
            self@.wf(),
            id < self@.cells(),
        ensures
            r == next_of(self@, id as int),
    {
        if id < self.neurons_tot {
            self.neuron_next[id as usize] as i16
        } else {
            self.muscle_next[(id - self.neurons_tot) as usize]
        }
    }

    /// Write `val` to the next state of entity `id`, saturating to the
    /// signed byte range for a neuron and storing as given for a muscle.
    fn set_next_state(&mut self, id: u16, val: i16)
        requires
            old(self)@.wf(),
            id < old(self)@.cells(),
        ensures
            final(self)@ == set_next(old(self)@, id as int, val),
            final(self)@.wf(),
    {
        if id < self.neurons_tot {
            let v: i8 = if val > 127 {
                127
            } else if val < -128 {
                -128
            } else {
                val as i8
            };
            self.neuron_next[id as usize] = v;
        } else {
            self.muscle_next[(id - self.neurons_tot) as usize] = val;
        }
        assert(self@ =~= set_next(old(self)@, id as int, val));
    }

    /// Add `delta` to the next state of entity `id` through the same
    /// saturation rule; a muscle sum wraps in 16 bits.
    fn add_to_next_state(&mut self, id: u16, val: i8)
        requires
            old(self)@.wf(),
            id < old(self)@.cells(),
        ensures
            final(self)@ == add_to_next(old(self)@, id as int, val),
            final(self)@.wf(),
    {
        if id < self.neurons_tot {
            let curr: i8 = self.neuron_next[id as usize];
            let sum: i16 = curr as i16 + val as i16;
            let v: i8 = if sum > 127 {
                127
            } else if sum < -128 {
                -128
            } else {
                sum as i8
            };
            self.neuron_next[id as usize] = v;
        } else {
            let idx: usize = (id - self.neurons_tot) as usize;
            let curr: i16 = self.muscle_next[idx];
            self.muscle_next[idx] = curr.wrapping_add(val as i16);
        }
        assert(self@ =~= add_to_next(old(self)@, id as int, val));
    }

    /// Set or clear the discharge flag of neuron `id`: setting it wipes
    /// the idle counter, clearing it leaves the counter untouched.
    fn meta_flag_discharge(&mut self, id: u16, val: u8)
        requires
            old(self)@.wf(),
            id < old(self)@.neurons,
        ensures
            final(self)@ == flag_discharge(old(self)@, id as int, val != 0),
            final(self)@.wf(),
    {
        let idx: usize = id as usize;
        if val == 0 {
            let m = self.meta[idx];
            self.meta[idx] = m & 0x7f;
        } else {
            self.meta[idx] = 0x80;
        }
        assert(self@ =~= flag_discharge(old(self)@, id as int, val != 0));
    }

    /// Propagate every outgoing connection of neuron `id` into next
    /// state, in record order.
    fn ping_neuron(&mut self, id: u16)
        requires
            old(self)@.wf(),
            id < old(self)@.neurons,
        ensures
            final(self)@ == ping(old(self)@, id as int),
            final(self)@.wf(),
    {
        let ghost s0 = self@;
        proof {
            assert(rom_wf(s0.rom, s0.neurons as int, s0.cells()));
            let i_int: int = id as int;
            assert(s0.rom[i_int + 1] <= s0.rom[i_int + 2] && s0.rom[i_int + 2] <= s0.rom.len());
        }
        let address: u16 = self.rom[id as usize + 1];
        let end: u16 = self.rom[id as usize + 2];
        let len: u16 = end - address;
        let mut i: u16 = 0;
        while i < len
            invariant
                i <= len,
                s0.wf(),
                id < s0.neurons,
                address == s0.rom[id + 1],
                end == s0.rom[id + 2],
                end <= s0.rom.len(),
                len == end - address,
                self@ == ping_upto(s0, id as int, i as nat),
                self@.wf(),
                self@.rom == s0.rom,
                self@.neurons == s0.neurons,
                self@.muscles == s0.muscles,
            decreases len - i,
        {
            let w: u16 = self.rom[(address + i) as usize];
            let conn = parse_rom_word(w);
            proof {
                assert(neuron_targets_ok(s0.rom, id as int, s0.cells()));
                assert(address <= address + i < end);
                assert(decode_id(s0.rom[address + i]) < s0.cells());
                assert(w == s0.conn_word(id as int, i as int));
            }
            self.add_to_next_state(conn.id, conn.weight);
            i = i + 1;
            assert(self@ == ping_upto(s0, id as int, i as nat));
        }
        assert(self@ == ping(s0, id as int));
    }

    /// Discharge neuron `id`: propagate its connections, then reset its
    /// own next state to zero.
    fn discharge_neuron(&mut self, id: u16)
        requires
            old(self)@.wf(),
            id < old(self)@.neurons,
        ensures
            final(self)@ == discharge(old(self)@, id as int),
            final(self)@.wf(),
    {
        self.ping_neuron(id);
        proof {
            lemma_ping_frame(old(self)@, id as int);
        }
        self.set_next_state(id, 0);
    }

    /// The idle-decay pass: for every neuron, in id order, count a cycle
    /// in which its next state equals its settled state, and force the
    /// next state of a neuron that has been idle past the threshold to
    /// zero.
    fn meta_handle_idle_neurons(&mut self)
        requires
            old(self)@.wf(),
        ensures
            final(self)@ == idle_upto(old(self)@, old(self)@.neurons),
            final(self)@.wf(),
    {
        let ghost s0 = self@;
        let n: u16 = self.neurons_tot;
        let mut i: u16 = 0;
        while i < n
            invariant
                i <= n,
                s0.wf(),
                n == s0.neurons,
                self@ == idle_upto(s0, i as nat),
                self@.wf(),
                self@.neurons == s0.neurons,
                self@.muscles == s0.muscles,
            decreases n - i,
        {
            let ghost prev = self@;
            let idx = i as usize;
            let low: u8 = self.meta[idx] & 0x7f;
            let high: u8 = self.meta[idx] & 0x80;
            let mut idle_ticks: u8 = low;

            if self.get_next_state(i) == self.get_current_state(i) {
                let m: u8 = self.meta[idx];
                self.meta[idx] = m.wrapping_add(1);
                idle_ticks = idle_ticks.wrapping_add(1);
            } else {
                self.meta[idx] = high;
            }

            if idle_ticks > MAX_IDLE_TICKS {
                self.set_next_state(i, 0);
                self.meta[i as usize] = high;
            }
            i = i + 1;
            assert(self@ =~= idle_step(prev, i - 1));
            assert(self@ == idle_upto(s0, i as nat));
        }
    }

    /// The buffer swap: settled state becomes the accumulated next state
    /// for neurons and muscles, and the muscle next buffer is zeroed.
    fn iterate_state(&mut self)
        requires
            old(self)@.wf(),
        ensures
            final(self)@ == swap_buffers(old(self)@),
            final(self)@.wf(),
    {
        let ghost s0 = self@;
        let nlen: usize = self.neuron_current.len();
        let mut i: usize = 0;
        while i < nlen
            invariant
                i <= nlen,
                self@.ncur.len() == nlen,
                self@.nnext == s0.nnext,
                self@.rom == s0.rom,
                self@.neurons == s0.neurons,
                self@.muscles == s0.muscles,
                self@.mcur == s0.mcur,
                self@.mnext == s0.mnext,
                self@.meta == s0.meta,
                forall|k: int| 0 <= k < i ==> self@.ncur[k] == s0.nnext[k],
                nlen == s0.nnext.len(),
            decreases nlen - i,
        {
            let v: i8 = self.neuron_next[i];
            self.neuron_current[i] = v;
            i = i + 1;
        }
        assert(self@.ncur =~= s0.nnext);

        let ghost s1 = self@;
        let mlen: usize = self.muscle_current.len();
        let mut i: usize = 0;
        while i < mlen
            invariant
                i <= mlen,
                self@.mcur.len() == mlen,
                self@.ncur == s1.ncur,
                self@.nnext == s1.nnext,
                self@.rom == s1.rom,
                self@.neurons == s1.neurons,
                self@.muscles == s1.muscles,
                self@.mnext == s1.mnext,
                self@.meta == s1.meta,
                forall|k: int| 0 <= k < i ==> self@.mcur[k] == s1.mnext[k],
                mlen == s1.mnext.len(),
            decreases mlen - i,
        {
            let v: i16 = self.muscle_next[i];
            self.muscle_current[i] = v;
            i = i + 1;
        }
        assert(self@.mcur =~= s1.mnext);

        let ghost s2 = self@;
        let mut i: usize = 0;
        while i < mlen
            invariant
                i <= mlen,
                self@.mnext.len() == mlen,
                self@.ncur == s2.ncur,
                self@.nnext == s2.nnext,
                self@.rom == s2.rom,
                self@.neurons == s2.neurons,
                self@.muscles == s2.muscles,
                self@.mcur == s2.mcur,
                self@.meta == s2.meta,
                forall|k: int| 0 <= k < i ==> self@.mnext[k] == 0i16,
            decreases mlen - i,
        {
            self.muscle_next[i] = 0;
            i = i + 1;
        }
        assert(self@.mnext =~= Seq::new(s0.muscles, |k: int| 0i16));
        assert(self@ =~= swap_buffers(s0));
    }

    /// One full cycle: external stimulation, the threshold scan in
    /// strictly increasing id order, idle decay, and the buffer swap.
    pub fn neural_cycle(&mut self, stim_neuron: Option<&[u16]>)
        requires
            old(self)@.wf(),
            stim_ok(old(self)@, stim_view(stim_neuron)),
        ensures
            final(self)@ == cycle(old(self)@, stim_view(stim_neuron)),
            final(self)@.wf(),
            final(self)@.rom == old(self)@.rom,
            final(self)@.neurons == old(self)@.neurons,
            final(self)@.muscles == old(self)@.muscles,
    {
        let ghost s0 = self@;
        let ghost stim_ids = stim_view(stim_neuron);

        if let Some(stim) = stim_neuron {
            let mut k: usize = 0;
            while k < stim.len()
                invariant
                    k <= stim@.len(),
                    s0.wf(),
                    stim_ok(s0, stim@),
                    stim_ids == stim@,
                    self@ == stimulate_upto(s0, stim@, k as nat),
                    self@.wf(),
                    self@.neurons == s0.neurons,
                    self@.muscles == s0.muscles,
                    self@.rom == s0.rom,
                decreases stim@.len() - k,
            {
                let id: u16 = stim[k];
                self.ping_neuron(id);
                proof {
                    lemma_ping_frame(stimulate_upto(s0, stim@, k as nat), id as int);
                }
                k = k + 1;
                assert(self@ == stimulate_upto(s0, stim@, k as nat));
            }
            assert(self@ == stimulate_upto(s0, stim_ids, stim_ids.len()));
        } else {
            assert(self@ == stimulate_upto(s0, stim_ids, stim_ids.len()));
        }

        let ghost s1 = stimulate_upto(s0, stim_ids, stim_ids.len());
        proof {
            lemma_stimulate_upto_frame(s0, stim_ids, stim_ids.len());
        }

        let n: u16 = self.neurons_tot;
        let mut i: u16 = 0;
        while i < n
            invariant
                i <= n,
                s1.wf(),
                n == s1.neurons,
                self@ == scan_upto(s1, i as nat),
                self@.wf(),
                self@.neurons == s1.neurons,
                self@.muscles == s1.muscles,
            decreases n - i,
        {
            let ghost prev = self@;
            proof {
                lemma_scan_upto_frame(s1, i as nat);
            }
            if self.get_current_state(i) > DISCHARGE_THRESHOLD {
                self.discharge_neuron(i);
                proof {
                    lemma_discharge_frame(prev, i as int);
                }
                self.meta_flag_discharge(i, 1);
            } else {
                self.meta_flag_discharge(i, 0);
            }
            i = i + 1;
            assert(self@ == scan_upto(s1, i as nat));
        }
        assert(self@ == scan_upto(s1, s1.neurons));

        let ghost s2 = scan_upto(s1, s1.neurons);
        self.meta_handle_idle_neurons();
        assert(self@ == idle_upto(s2, s2.neurons));

        self.iterate_state();
        assert(self@ == swap_buffers(idle_upto(s2, s2.neurons)));
        proof {
            lemma_cycle_frame(s0, stim_ids);
        }
        assert(self@ == cycle(s0, stim_ids));
    }

    /// The settled state of entity `id`, as the query interface reports
    /// it: a neuron's byte widened to 16 bits, a muscle's word as stored.
    pub fn get_weight(&self, id: u16) -> (r: i16)
        requires
            self@.wf(),
            id < self@.cells(),
        ensures
            r == current_of(self@, id as int),
    {
        self.get_current_state(id)
    }

    /// The discharge flag of neuron `id`: 1 when it discharged during the
    /// latest cycle, 0 otherwise.
    pub fn get_discharge(&self, id: u16) -> (r: u8)
        requires
            self@.wf(),
            id < self@.neurons,
        ensures
            r == discharge_of(self@, id as int),
            r <= 1,
    {
        let m: u8 = self.meta[id as usize];
        proof {
            assert(m >> 7 <= 1) by (bit_vector);
        }
        m >> 7
    }

    /// Batch discharge query: one flag per requested id, in request
    /// order; entries of the result buffer past the request list are left
    /// as they were.
    pub fn discharge_query(&self, input_id: &[u16], query_result: &mut Vec<u8>)
        requires
            self@.wf(),
            forall|k: int| 0 <= k < input_id@.len() ==> (#[trigger] input_id@[k]) < self@.neurons,
            old(query_result)@.len() >= input_id@.len(),
        ensures
            final(query_result)@.len() == old(query_result)@.len(),
            forall|k: int|
                0 <= k < input_id@.len() ==> (#[trigger] final(query_result)@[k]) == discharge_of(
                    self@,
                    input_id@[k] as int,
                ),
            forall|k: int|
                input_id@.len() <= k < old(query_result)@.len()
                    ==> (#[trigger] final(query_result)@[k]) == old(query_result)@[k],
    {
        let mut i: usize = 0;
        while i < input_id.len()
            invariant
                i <= input_id@.len(),
                self@.wf(),
                forall|k: int|
                    0 <= k < input_id@.len() ==> (#[trigger] input_id@[k]) < self@.neurons,
                query_result@.len() == old(query_result)@.len(),
                old(query_result)@.len() >= input_id@.len(),
                forall|k: int|
                    0 <= k < i ==> (#[trigger] query_result@[k]) == discharge_of(
                        self@,
                        input_id@[k] as int,
                    ),
                forall|k: int|
                    i <= k < old(query_result)@.len() ==> (#[trigger] query_result@[k]) == old(
                        query_result,
                    )@[k],
            decreases input_id@.len() - i,
        {
            let id: usize = input_id[i] as usize;
            let discharged: u8 = self.meta[id] >> 7;
            query_result[i] = discharged;
            i = i + 1;
        }
    }
}

/// The stimulation list as a sequence of ids; no list means no
/// stimulation.
pub open spec fn stim_view(stim: Option<&[u16]>) -> Seq<u16> {
    match stim {
        Some(s) => s@,
        None => Seq::empty(),
    }
}

} // verus!
