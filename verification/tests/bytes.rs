use fuel_vm::bytes::{word_from_be_bytes, word_to_be_bytes};

#[test]
fn words_round_trip_through_big_endian_bytes() {
    assert_eq!(word_to_be_bytes(0x0102_0304_0506_0708), [1, 2, 3, 4, 5, 6, 7, 8]);
    assert_eq!(word_from_be_bytes([1, 2, 3, 4, 5, 6, 7, 8]), 0x0102_0304_0506_0708);
    for w in [0u64, 1, 0xff, 0x100, u64::MAX, 0xdead_beef_0000_0001] {
        assert_eq!(word_from_be_bytes(word_to_be_bytes(w)), w);
        assert_eq!(word_to_be_bytes(w), w.to_be_bytes());
    }
}
