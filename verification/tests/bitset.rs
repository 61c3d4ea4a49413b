use almiraj::bitset::BitSet8;

#[test]
fn test_bitset8() {
    let mut bits = BitSet8::new();

    assert!(bits.allocate_bit("flag1").is_some());
    assert!(bits.allocate_bit("flag2").is_some());

    assert!(bits.set("flag1", true));
    assert!(bits.set("flag2", false));
    assert_eq!(bits.get("flag1"), Some(true));
    assert_eq!(bits.get("flag2"), Some(false));

    assert_eq!(bits.get("nonexistent"), None);
}

#[test]
fn eight_slots_then_full() {
    let mut bits = BitSet8::new();
    let names = ["a", "b", "c", "d", "e", "f", "g", "h"];
    for (slot, name) in names.iter().enumerate() {
        assert_eq!(bits.allocate_bit(name), Some(slot));
        assert_eq!(bits.used_bits() + bits.available_bits(), 8);
    }
    assert_eq!(bits.used_bits(), 8);
    assert_eq!(bits.available_bits(), 0);
    assert_eq!(bits.allocate_bit("ninth"), None);
    assert_eq!(bits.used_bits(), 8);
}

#[test]
fn set_get_round_trip_every_name() {
    let mut bits = BitSet8::new();
    let names = ["a", "b", "c", "d", "e", "f", "g", "h"];
    for name in names.iter() {
        bits.allocate_bit(name);
    }
    for (slot, name) in names.iter().enumerate() {
        let value = slot % 2 == 0;
        assert!(bits.set(name, value));
        assert_eq!(bits.get(name), Some(value));
    }
    for (slot, name) in names.iter().enumerate() {
        assert_eq!(bits.get(name), Some(slot % 2 == 0));
    }
}

#[test]
fn unknown_name_is_reported_not_stored() {
    let mut bits = BitSet8::new();
    bits.allocate_bit("known");
    assert!(!bits.set("unknown", true));
    assert_eq!(bits.get("unknown"), None);
    assert_eq!(bits.get("known"), Some(false));
}

#[test]
fn empty_packer_counts() {
    let bits = BitSet8::new();
    assert_eq!(bits.used_bits(), 0);
    assert_eq!(bits.available_bits(), 8);
    assert_eq!(bits.get("anything"), None);
}

#[test]
fn duplicate_name_consumes_a_new_slot() {
    let mut bits = BitSet8::new();
    assert_eq!(bits.allocate_bit("twice"), Some(0));
    assert_eq!(bits.allocate_bit("twice"), Some(1));
    assert_eq!(bits.used_bits(), 2);
    assert!(bits.set("twice", true));
    assert_eq!(bits.get("twice"), Some(true));
}
