use com::iid::{Guid, Iid, IidError};

#[test]
fn parses_the_root_identity() {
    let iid = Iid::parse("00000000-0000-0000-C000-000000000046").unwrap();
    assert_eq!(iid, Iid { data1: 0, data2: 0, data3: 0, data4: 0xC000_0000_0000_0046 });
}

#[test]
fn root_identity_ignores_letter_case() {
    let upper = Iid::parse("00000000-0000-0000-C000-000000000046");
    let lower = Iid::parse("00000000-0000-0000-c000-000000000046");
    assert!(upper.is_ok());
    assert_eq!(upper, lower);
}

#[test]
fn mixed_case_digits_give_the_same_value() {
    let a = Iid::parse("abcdefAB-CdEf-aBcD-EFab-cdefABCDEF01").unwrap();
    let b = Iid::parse("ABCDEFab-cDeF-AbCd-efAB-CDEFabcdef01").unwrap();
    assert_eq!(a, b);
    assert_eq!(a.data1, 0xABCD_EFAB);
    assert_eq!(a.data2, 0xCDEF);
    assert_eq!(a.data3, 0xABCD);
    assert_eq!(a.data4, 0xEFAB_CDEF_ABCD_EF01);
}

#[test]
fn every_group_lands_in_its_field() {
    let iid = Iid::parse("12345678-9abc-def0-1234-56789abcdef0").unwrap();
    assert_eq!(iid.data1, 0x1234_5678);
    assert_eq!(iid.data2, 0x9abc);
    assert_eq!(iid.data3, 0xdef0);
    assert_eq!(iid.data4, 0x1234_5678_9abc_def0);
}

#[test]
fn largest_identity_fits() {
    let iid = Iid::parse("ffffffff-ffff-ffff-ffff-ffffffffffff").unwrap();
    assert_eq!(
        iid,
        Iid { data1: u32::MAX, data2: u16::MAX, data3: u16::MAX, data4: u64::MAX }
    );
}

#[test]
fn empty_text_has_the_wrong_grouping() {
    assert_eq!(Iid::parse(""), Err(IidError::WrongGrouping));
}

#[test]
fn short_text_has_the_wrong_grouping() {
    assert_eq!(Iid::parse("00000000-0000-0000-C000-00000000004"), Err(IidError::WrongGrouping));
}

#[test]
fn long_text_has_the_wrong_grouping() {
    assert_eq!(
        Iid::parse("00000000-0000-0000-C000-0000000000466"),
        Err(IidError::WrongGrouping)
    );
}

#[test]
fn missing_hyphen_is_the_wrong_grouping() {
    assert_eq!(
        Iid::parse("000000000-000-0000-C000-000000000046"),
        Err(IidError::WrongGrouping)
    );
}

#[test]
fn hyphen_among_the_digits_is_the_wrong_grouping() {
    assert_eq!(
        Iid::parse("0000-000-0000-0000-C000-000000000046"),
        Err(IidError::WrongGrouping)
    );
}

#[test]
fn text_without_hyphens_is_the_wrong_grouping() {
    assert_eq!(
        Iid::parse("00000000000000000000C000000000000046"),
        Err(IidError::WrongGrouping)
    );
}

#[test]
fn non_hex_character_is_named_by_its_position() {
    assert_eq!(
        Iid::parse("00000000-0000-0000-G000-000000000046"),
        Err(IidError::NonHexDigit { position: 19 })
    );
}

#[test]
fn the_first_non_hex_character_is_named() {
    assert_eq!(
        Iid::parse("0000z000-0000-0000-C000-00000000004x"),
        Err(IidError::NonHexDigit { position: 4 })
    );
}

#[test]
fn non_ascii_character_is_not_a_digit() {
    assert_eq!(
        Iid::parse("0000000é-0000-0000-C000-000000000046"),
        Err(IidError::NonHexDigit { position: 7 })
    );
}

#[test]
fn same_compares_all_bits() {
    let a = Iid { data1: 1, data2: 2, data3: 3, data4: 4 };
    assert!(a.same(&Iid { data1: 1, data2: 2, data3: 3, data4: 4 }));
    assert!(!a.same(&Iid { data1: 0, data2: 2, data3: 3, data4: 4 }));
    assert!(!a.same(&Iid { data1: 1, data2: 0, data3: 3, data4: 4 }));
    assert!(!a.same(&Iid { data1: 1, data2: 2, data3: 0, data4: 4 }));
    assert!(!a.same(&Iid { data1: 1, data2: 2, data3: 3, data4: 5 }));
}

#[test]
fn canonical_text_is_capital_and_grouped() {
    let iid = Iid { data1: 0xEFF8970E, data2: 0xC50F, data3: 0x45E0, data4: 0x9284_291C_E5A6_F771 };
    assert_eq!(iid.to_text(), "EFF8970E-C50F-45E0-9284-291CE5A6F771");
    let root = Iid { data1: 0, data2: 0, data3: 0, data4: 0xC000_0000_0000_0046 };
    assert_eq!(root.to_text(), "00000000-0000-0000-C000-000000000046");
}

#[test]
fn canonical_text_parses_back() {
    for iid in [
        Iid { data1: 0, data2: 0, data3: 0, data4: 0 },
        Iid { data1: u32::MAX, data2: u16::MAX, data3: u16::MAX, data4: u64::MAX },
        Iid { data1: 0x0123_4567, data2: 0x89AB, data3: 0xCDEF, data4: 0x0011_2233_4455_6677 },
        Iid { data1: 1, data2: 2, data3: 3, data4: 4 },
    ] {
        assert_eq!(Iid::parse(&iid.to_text()), Ok(iid));
        assert_eq!(Iid::parse(&iid.to_text().to_lowercase()), Ok(iid));
    }
}

#[test]
fn native_representation_holds_the_last_eight_bytes_one_by_one() {
    let iid = Iid::parse("EFF8970E-C50F-45E0-9284-291CE5A6F771").unwrap();
    let native = iid.to_native();
    assert_eq!(
        native,
        Guid {
            data1: 0xEFF8970E,
            data2: 0xC50F,
            data3: 0x45E0,
            data4: [0x92, 0x84, 0x29, 0x1C, 0xE5, 0xA6, 0xF7, 0x71],
        }
    );
    assert_eq!(Iid::from_native(&native), iid);
}

#[test]
fn comparison_with_a_native_value_takes_all_bits() {
    let root = Iid::parse("00000000-0000-0000-C000-000000000046").unwrap();
    let native = Guid { data1: 0, data2: 0, data3: 0, data4: [0xC0, 0, 0, 0, 0, 0, 0, 0x46] };
    assert!(root.equals_native(&native));
    assert!(!root.equals_native(&Guid { data1: 1, ..native }));
    assert!(!root.equals_native(&Guid { data2: 1, ..native }));
    assert!(!root.equals_native(&Guid { data3: 1, ..native }));
    for i in 0..8 {
        let mut other = native;
        other.data4[i] ^= 0x10;
        assert!(!root.equals_native(&other));
    }
    let all = Guid { data1: u32::MAX, data2: u16::MAX, data3: u16::MAX, data4: [0xFF; 8] };
    assert_eq!(Iid::from_native(&all).data4, u64::MAX);
}
