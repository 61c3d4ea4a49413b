use almiraj::types::PrimitiveType;

fn check(
    name: &str,
    kind: PrimitiveType,
    bits: u8,
    bytes: u8,
    range: (i128, i128),
) {
    let found = PrimitiveType::from_str(name).expect("known type name");
    assert_eq!(found, kind);
    assert_eq!(found.size_in_bits(), bits);
    assert_eq!(found.size_in_bytes(), bytes);
    assert_eq!(found.memory_alignment(), bits);
    assert_eq!(found.value_range(), range);
}

#[test]
fn catalog_table_unsigned() {
    check("bit", PrimitiveType::Bit, 1, 1, (0, 1));
    check("bool", PrimitiveType::Bit, 1, 1, (0, 1));
    check("uint2", PrimitiveType::UInt2, 2, 1, (0, 3));
    check("uint4", PrimitiveType::UInt4, 4, 1, (0, 15));
    check("uint8", PrimitiveType::UInt8, 8, 1, (0, 255));
    check("uint16", PrimitiveType::UInt16, 16, 2, (0, 65_535));
    check("uint32", PrimitiveType::UInt32, 32, 4, (0, 4_294_967_295));
    check(
        "uint64",
        PrimitiveType::UInt64,
        64,
        8,
        (0, 18_446_744_073_709_551_615),
    );
}

#[test]
fn catalog_table_signed() {
    check("int8", PrimitiveType::Int8, 8, 1, (-128, 127));
    check("int16", PrimitiveType::Int16, 16, 2, (-32_768, 32_767));
    check(
        "int32",
        PrimitiveType::Int32,
        32,
        4,
        (-2_147_483_648, 2_147_483_647),
    );
    check(
        "int64",
        PrimitiveType::Int64,
        64,
        8,
        (-9_223_372_036_854_775_808, 9_223_372_036_854_775_807),
    );
}

#[test]
fn unknown_names_yield_none() {
    assert_eq!(PrimitiveType::from_str(""), None);
    assert_eq!(PrimitiveType::from_str("uint"), None);
    assert_eq!(PrimitiveType::from_str("uint128"), None);
    assert_eq!(PrimitiveType::from_str("int"), None);
    assert_eq!(PrimitiveType::from_str("float32"), None);
    assert_eq!(PrimitiveType::from_str("Bit"), None);
}

#[test]
fn only_bit_uses_the_bitset() {
    assert!(PrimitiveType::Bit.should_use_bitset());
    assert!(!PrimitiveType::UInt2.should_use_bitset());
    assert!(!PrimitiveType::UInt8.should_use_bitset());
    assert!(!PrimitiveType::Int64.should_use_bitset());
}
