use checkbox_board::protocol::BitmapMessage;
use checkbox_board::store::mutate_byte;
use checkbox_board::store::MutationOutcome;
use checkbox_board::store::PackedStateStore;
use checkbox_board::store::StoreError;
use checkbox_board::store::STORE_BYTES;

fn zeroed_store() -> PackedStateStore {
    let mut store = PackedStateStore::new();
    store.initialize_if_absent().unwrap();
    store
}

#[test]
fn initialize_creates_all_zero_buffer() {
    let store = zeroed_store();
    let snapshot = store.read_snapshot();
    assert_eq!(snapshot.len(), STORE_BYTES);
    assert_eq!(snapshot.len(), 500_000);
    assert!(snapshot.iter().all(|&b| b == 0));
}

#[test]
fn initialize_keeps_existing_buffer() {
    let mut bytes = vec![0u8; STORE_BYTES];
    bytes[0] = 0xab;
    let mut store = PackedStateStore::from_snapshot(bytes);
    assert_eq!(store.initialize_if_absent(), Ok(()));
    assert_eq!(store.read_snapshot()[0], 0xab);
}

#[test]
fn initialize_rejects_wrong_length_as_corrupt() {
    let mut store = PackedStateStore::from_snapshot(vec![0u8; 10]);
    assert_eq!(store.initialize_if_absent(), Err(StoreError::StoreCorrupt));
}

#[test]
fn mutation_before_initialize_fails() {
    let mut store = PackedStateStore::new();
    assert_eq!(
        store.apply_mutation(0, BitmapMessage::Add),
        Err(StoreError::NotInitialized)
    );
}

#[test]
fn p6_scenario_nibble_packing() {
    // Store initialized to all-zero (500,000 bytes).
    let mut store = zeroed_store();

    // Increment(cell 0) -> byte 0 = 0b00010000.
    assert_eq!(
        store.apply_mutation(0, BitmapMessage::Add),
        Ok(MutationOutcome::Applied(1))
    );
    assert_eq!(store.read_snapshot()[0], 0b0001_0000);

    // Increment(cell 1) -> byte 0 = 0b00010001.
    assert_eq!(
        store.apply_mutation(1, BitmapMessage::Add),
        Ok(MutationOutcome::Applied(1))
    );
    assert_eq!(store.read_snapshot()[0], 0b0001_0001);

    // SetTo(cell 0, 15) -> byte 0 = 0b11110001.
    assert_eq!(
        store.apply_mutation(0, BitmapMessage::SetTo(15)),
        Ok(MutationOutcome::Applied(15))
    );
    assert_eq!(store.read_snapshot()[0], 0b1111_0001);

    // Decrement(cell 0) -> byte 0 = 0b11100001.
    assert_eq!(
        store.apply_mutation(0, BitmapMessage::Sub),
        Ok(MutationOutcome::Applied(14))
    );
    assert_eq!(store.read_snapshot()[0], 0b1110_0001);
}

#[test]
fn increment_sixteen_times_wraps_to_start() {
    let mut store = zeroed_store();
    // Start cell 5 at value 3.
    store.apply_mutation(5, BitmapMessage::SetTo(3)).unwrap();
    let before = store.read_snapshot();
    for step in 1..=16u8 {
        let r = store.apply_mutation(5, BitmapMessage::Add).unwrap();
        assert_eq!(r, MutationOutcome::Applied((3 + step) % 16));
    }
    assert_eq!(store.read_snapshot(), before);
}

#[test]
fn decrement_sixteen_times_wraps_to_start() {
    let mut store = zeroed_store();
    let before = store.read_snapshot();
    // First decrement of a zero cell wraps to 15.
    assert_eq!(
        store.apply_mutation(7, BitmapMessage::Sub),
        Ok(MutationOutcome::Applied(15))
    );
    for step in 2..=16u8 {
        let r = store.apply_mutation(7, BitmapMessage::Sub).unwrap();
        assert_eq!(r, MutationOutcome::Applied(16 - step));
    }
    assert_eq!(store.read_snapshot(), before);
}

#[test]
fn set_to_same_value_is_noop() {
    let mut store = zeroed_store();
    assert_eq!(
        store.apply_mutation(10, BitmapMessage::SetTo(9)),
        Ok(MutationOutcome::Applied(9))
    );
    let before = store.read_snapshot();
    // Same value again: no store write.
    assert_eq!(
        store.apply_mutation(10, BitmapMessage::SetTo(9)),
        Ok(MutationOutcome::Noop)
    );
    assert_eq!(store.read_snapshot(), before);
    // Setting a zero cell to zero is also a no-op.
    assert_eq!(
        store.apply_mutation(11, BitmapMessage::SetTo(0)),
        Ok(MutationOutcome::Noop)
    );
}

#[test]
fn set_to_value_above_fifteen_rejected() {
    let mut store = zeroed_store();
    assert_eq!(
        store.apply_mutation(0, BitmapMessage::SetTo(16)),
        Err(StoreError::InvalidValue)
    );
    assert_eq!(
        store.apply_mutation(0, BitmapMessage::SetTo(255)),
        Err(StoreError::InvalidValue)
    );
}

#[test]
fn sibling_cell_never_changes() {
    let mut store = zeroed_store();
    // Cells 0 and 1 share byte 0; cells 2 and 3 share byte 1.
    store.apply_mutation(0, BitmapMessage::SetTo(9)).unwrap();
    store.apply_mutation(1, BitmapMessage::SetTo(4)).unwrap();
    store.apply_mutation(2, BitmapMessage::SetTo(6)).unwrap();

    // Mutate cell 0 repeatedly: cell 1's nibble and every other byte stay.
    store.apply_mutation(0, BitmapMessage::Add).unwrap();
    store.apply_mutation(0, BitmapMessage::Sub).unwrap();
    store.apply_mutation(0, BitmapMessage::SetTo(2)).unwrap();
    let snapshot = store.read_snapshot();
    assert_eq!(snapshot[0] & 0x0f, 4); // cell 1 untouched
    assert_eq!(snapshot[0] >> 4, 2); // cell 0 holds the last set
    assert_eq!(snapshot[1], 0b0110_0000); // cell 2 untouched

    // Mutate cell 3: cell 2 (high nibble of byte 1) stays.
    store.apply_mutation(3, BitmapMessage::Add).unwrap();
    let snapshot = store.read_snapshot();
    assert_eq!(snapshot[1], 0b0110_0001);
}

#[test]
fn mutate_byte_compute_step() {
    // Byte 0x34: high nibble (even cell) 3, low nibble (odd cell) 4.
    assert_eq!(mutate_byte(0x34, true, BitmapMessage::Add), Ok(Some((0x44, 4))));
    assert_eq!(mutate_byte(0x34, false, BitmapMessage::Sub), Ok(Some((0x33, 3))));
    assert_eq!(mutate_byte(0x34, true, BitmapMessage::SetTo(3)), Ok(None));
    assert_eq!(mutate_byte(0x34, false, BitmapMessage::SetTo(4)), Ok(None));
    assert_eq!(
        mutate_byte(0x34, true, BitmapMessage::SetTo(16)),
        Err(StoreError::InvalidValue)
    );
    // Wraparound at the byte level.
    assert_eq!(mutate_byte(0xf0, true, BitmapMessage::Add), Ok(Some((0x00, 0))));
    assert_eq!(mutate_byte(0x00, false, BitmapMessage::Sub), Ok(Some((0x0f, 15))));
}
