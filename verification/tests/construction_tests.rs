//! Construction accepts exactly the well-formed ROM tables and reports
//! the first malformation found, in check order: layout, then offsets,
//! then connection targets.

use connectome::emulator::{Connectome, RomError};

/// Pack one connection record for `target` with `weight` in [-64, 63].
fn conn_word(target: u16, weight: i8) -> u16 {
    let mut low = (weight as u8) & 0x7f;
    if target >= 256 {
        low |= 0x80;
    }
    let high = (target & 0xff) as u8;
    ((high as u16) << 8) | low as u16
}

#[test]
fn empty_rom_is_bad_layout() {
    assert_eq!(Connectome::new(vec![], 0).unwrap_err(), RomError::BadLayout);
}

#[test]
fn neuron_count_above_cells_is_bad_layout() {
    assert_eq!(Connectome::new(vec![5, 0, 0, 0, 0, 0, 0], 3).unwrap_err(), RomError::BadLayout);
}

#[test]
fn missing_offset_table_is_bad_layout() {
    // One word only: no room for even an empty offset table.
    assert_eq!(Connectome::new(vec![0], 0).unwrap_err(), RomError::BadLayout);
}

#[test]
fn muscle_count_above_byte_is_bad_layout() {
    assert_eq!(Connectome::new(vec![0, 0, 0], 300).unwrap_err(), RomError::BadLayout);
}

#[test]
fn reversed_offsets_are_bad_offsets() {
    assert_eq!(Connectome::new(vec![1, 5, 4], 1).unwrap_err(), RomError::BadOffsets);
}

#[test]
fn offsets_past_table_end_are_bad_offsets() {
    assert_eq!(Connectome::new(vec![1, 3, 9], 1).unwrap_err(), RomError::BadOffsets);
}

#[test]
fn target_outside_entity_space_is_bad_target() {
    // One neuron, no muscles, one connection aimed at id 5.
    let rom = vec![1, 3, 4, conn_word(5, 10)];
    assert_eq!(Connectome::new(rom, 1).unwrap_err(), RomError::BadTarget);
}

#[test]
fn empty_network_is_accepted() {
    assert!(Connectome::new(vec![0, 0, 0], 0).is_ok());
}

#[test]
fn two_neuron_network_is_accepted() {
    // Two neurons, one connection 0 -> 1 of weight 50.
    let rom = vec![2, 4, 5, 5, conn_word(1, 50)];
    let ctm = Connectome::new(rom, 2).unwrap();
    // Freshly built: all settled states and flags are zero.
    assert_eq!(ctm.get_weight(0), 0);
    assert_eq!(ctm.get_weight(1), 0);
    assert_eq!(ctm.get_discharge(0), 0);
    assert_eq!(ctm.get_discharge(1), 0);
}
