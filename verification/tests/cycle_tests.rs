//! Cycle-engine scenarios: end-to-end propagation, same-cycle cascading,
//! neuron saturation against muscle accumulation and 16-bit wrap, and
//! discharge flags.

use connectome::emulator::Connectome;

/// Pack one connection record for `target` with `weight` in [-64, 63].
fn conn_word(target: u16, weight: i8) -> u16 {
    let mut low = (weight as u8) & 0x7f;
    if target >= 256 {
        low |= 0x80;
    }
    let high = (target & 0xff) as u8;
    ((high as u16) << 8) | low as u16
}

#[test]
fn end_to_end_two_neurons() {
    // Two neurons, no muscles, one connection 0 -> 1 of weight 50;
    // threshold is 30. Stimulate neuron 0 once: neuron 1's settled state
    // becomes 50 after one cycle, and neuron 0 never discharged.
    let rom = vec![2, 4, 5, 5, conn_word(1, 50)];
    let mut ctm = Connectome::new(rom, 2).unwrap();
    ctm.neural_cycle(Some(&[0]));
    assert_eq!(ctm.get_weight(1), 50);
    assert_eq!(ctm.get_discharge(0), 0);
}

#[test]
fn same_cycle_cascade() {
    // Neuron 0 -> 1 -> 2, each of weight 50, plus a driver neuron 3
    // feeding 0 and 1. One driven cycle puts neurons 0 and 1 above
    // threshold; the next cycle discharges 0, then 1 in id order, and
    // neuron 1's discharge still reaches neuron 2 before the swap.
    let rom = vec![
        4,
        6,
        7,
        8,
        8,
        10,
        conn_word(1, 50),
        conn_word(2, 50),
        conn_word(0, 50),
        conn_word(1, 50),
    ];
    let mut ctm = Connectome::new(rom, 4).unwrap();
    ctm.neural_cycle(Some(&[3]));
    assert_eq!(ctm.get_weight(0), 50);
    assert_eq!(ctm.get_weight(1), 50);
    assert_eq!(ctm.get_weight(2), 0);

    ctm.neural_cycle(None);
    // Neuron 2 received neuron 1's discharge within the same cycle.
    assert_eq!(ctm.get_weight(2), 50);
    // Both dischargers were reset and flagged.
    assert_eq!(ctm.get_weight(0), 0);
    assert_eq!(ctm.get_weight(1), 0);
    assert_eq!(ctm.get_discharge(0), 1);
    assert_eq!(ctm.get_discharge(1), 1);
    assert_eq!(ctm.get_discharge(2), 0);
}

#[test]
fn neuron_next_state_saturates_at_127() {
    // Stimulating the same source three times in one cycle accumulates
    // 3 * 63 = 189 into neuron 1's next state, which saturates at 127.
    let rom = vec![2, 4, 5, 5, conn_word(1, 63)];
    let mut ctm = Connectome::new(rom, 2).unwrap();
    ctm.neural_cycle(Some(&[0, 0, 0]));
    assert_eq!(ctm.get_weight(1), 127);
}

#[test]
fn neuron_next_state_saturates_at_minus_128() {
    let rom = vec![2, 4, 5, 5, conn_word(1, -64)];
    let mut ctm = Connectome::new(rom, 2).unwrap();
    ctm.neural_cycle(Some(&[0, 0, 0]));
    assert_eq!(ctm.get_weight(1), -128);
}

#[test]
fn muscle_state_does_not_saturate() {
    // One neuron and one muscle (entity 1). The same 3 * 63 sum lands in
    // the muscle unclamped.
    let rom = vec![1, 3, 4, conn_word(1, 63)];
    let mut ctm = Connectome::new(rom, 2).unwrap();
    ctm.neural_cycle(Some(&[0, 0, 0]));
    assert_eq!(ctm.get_weight(1), 189);
}

#[test]
fn muscle_state_wraps_in_16_bits() {
    // 521 * 63 = 32823 exceeds i16::MAX and wraps to 32823 - 65536.
    let rom = vec![1, 3, 4, conn_word(1, 63)];
    let mut ctm = Connectome::new(rom, 2).unwrap();
    let stim = vec![0u16; 521];
    ctm.neural_cycle(Some(&stim));
    assert_eq!(ctm.get_weight(1), -32713);
}

#[test]
fn muscle_next_buffer_is_cleared_each_cycle() {
    // The muscle keeps no running accumulator: a cycle without
    // stimulation leaves it at zero, not at its previous value.
    let rom = vec![1, 3, 4, conn_word(1, 63)];
    let mut ctm = Connectome::new(rom, 2).unwrap();
    ctm.neural_cycle(Some(&[0]));
    assert_eq!(ctm.get_weight(1), 63);
    ctm.neural_cycle(None);
    assert_eq!(ctm.get_weight(1), 0);
}

#[test]
fn discharge_resets_source_and_sets_flag() {
    let rom = vec![2, 4, 5, 5, conn_word(1, 50)];
    let mut ctm = Connectome::new(rom, 2).unwrap();
    ctm.neural_cycle(Some(&[0]));
    assert_eq!(ctm.get_weight(1), 50);
    ctm.neural_cycle(None);
    // Neuron 1 was above threshold: it discharged (it has no outgoing
    // connections), was reset, and its flag is set.
    assert_eq!(ctm.get_weight(1), 0);
    assert_eq!(ctm.get_discharge(1), 1);
    // The flag clears again the next cycle.
    ctm.neural_cycle(None);
    assert_eq!(ctm.get_discharge(1), 0);
}

#[test]
fn propagation_reaches_targets_beyond_id_255() {
    // 300 neurons; neuron 0's one connection targets id 256, which needs
    // the low byte's top bit in the packed record. Stimulating 0 must
    // land the weight on neuron 256.
    let mut rom = vec![300u16, 302];
    rom.extend(std::iter::repeat(303u16).take(300));
    rom.push(conn_word(256, 50));
    let mut ctm = Connectome::new(rom, 300).unwrap();
    ctm.neural_cycle(Some(&[0]));
    assert_eq!(ctm.get_weight(256), 50);
    assert_eq!(ctm.get_weight(255), 0);
    assert_eq!(ctm.get_weight(257), 0);
}

#[test]
fn discharge_query_preserves_order_and_tail() {
    let rom = vec![2, 4, 5, 5, conn_word(1, 50)];
    let mut ctm = Connectome::new(rom, 2).unwrap();
    ctm.neural_cycle(Some(&[0]));
    ctm.neural_cycle(None);
    let mut flags = vec![7u8; 4];
    ctm.discharge_query(&[1, 0, 1], &mut flags);
    assert_eq!(flags, vec![1, 0, 1, 7]);
}
