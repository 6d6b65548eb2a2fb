//! Query idempotence, run determinism, and the idle-decay off-by-one
//! boundary.

use connectome::emulator::Connectome;

/// Pack one connection record for `target` with `weight` in [-64, 63].
fn conn_word(target: u16, weight: i8) -> u16 {
    let mut low = (weight as u8) & 0x7f;
    if target >= 256 {
        low |= 0x80;
    }
    let high = (target & 0xff) as u8;
    ((high as u16) << 8) | low as u16
}

fn cascade_rom() -> Vec<u16> {
    vec![
        4,
        6,
        7,
        8,
        8,
        10,
        conn_word(1, 50),
        conn_word(2, 50),
        conn_word(0, 50),
        conn_word(1, 50),
    ]
}

#[test]
fn queries_are_idempotent_between_cycles() {
    let mut ctm = Connectome::new(cascade_rom(), 4).unwrap();
    ctm.neural_cycle(Some(&[3]));
    for id in 0..4u16 {
        assert_eq!(ctm.get_weight(id), ctm.get_weight(id));
        assert_eq!(ctm.get_discharge(id), ctm.get_discharge(id));
    }
    let w = ctm.get_weight(1);
    let d = ctm.get_discharge(1);
    assert_eq!(ctm.get_weight(1), w);
    assert_eq!(ctm.get_discharge(1), d);
}

#[test]
fn identical_runs_are_bit_identical() {
    // Two independent emulators over the same ROM, driven by the same
    // stimulation sequence, agree on every settled state and every
    // discharge flag at every step.
    let mut a = Connectome::new(cascade_rom(), 4).unwrap();
    let mut b = Connectome::new(cascade_rom(), 4).unwrap();
    let stims: [&[u16]; 3] = [&[3], &[], &[0, 3]];
    for step in 0..30 {
        let stim = stims[step % 3];
        a.neural_cycle(Some(stim));
        b.neural_cycle(Some(stim));
        for id in 0..4u16 {
            assert_eq!(a.get_weight(id), b.get_weight(id));
            assert_eq!(a.get_discharge(id), b.get_discharge(id));
        }
    }
}

#[test]
fn no_stimulation_equals_empty_stimulation() {
    let mut a = Connectome::new(cascade_rom(), 4).unwrap();
    let mut b = Connectome::new(cascade_rom(), 4).unwrap();
    a.neural_cycle(Some(&[3]));
    b.neural_cycle(Some(&[3]));
    a.neural_cycle(None);
    b.neural_cycle(Some(&[]));
    for id in 0..4u16 {
        assert_eq!(a.get_weight(id), b.get_weight(id));
        assert_eq!(a.get_discharge(id), b.get_discharge(id));
    }
}

#[test]
fn idle_decay_boundary_is_exact() {
    // Neuron 1 is pushed to 20 (below threshold) and then left alone, so
    // its state is pinned unchanging. The first unchanging cycle is the
    // one after the stimulated cycle; the idle threshold is 100. After
    // exactly 100 unchanging cycles the neuron must still hold 20; the
    // 101st unchanging cycle force-resets it to 0.
    let rom = vec![2, 4, 5, 5, conn_word(1, 20)];
    let mut ctm = Connectome::new(rom, 2).unwrap();
    ctm.neural_cycle(Some(&[0]));
    assert_eq!(ctm.get_weight(1), 20);

    for _ in 0..100 {
        ctm.neural_cycle(None);
        assert_eq!(ctm.get_weight(1), 20);
    }

    ctm.neural_cycle(None);
    assert_eq!(ctm.get_weight(1), 0);
}
