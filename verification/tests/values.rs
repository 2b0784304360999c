use rfvp_hosted_provider::catalog::{
    release_opcode_ids, release_syscall_catalog_hash, release_syscall_ids, OPCODE_COUNT,
};
use rfvp_hosted_provider::float::{round_to_float, same_number, to_single, Float32};
use rfvp_hosted_provider::host_api::RfvpError;
use rfvp_hosted_provider::names::NameMap;
use rfvp_hosted_provider::old_school::{
    check_old_school_scale, load_required_old_school_scale, parse_old_school_scale,
};
use rfvp_hosted_provider::text::{decimal_string, hex_string, parse_u32};

fn float(value: f32) -> Float32 {
    Float32 { bits: value.to_bits() }
}

#[test]
fn numbers_are_written_and_read() {
    assert_eq!(decimal_string(0), "0");
    assert_eq!(decimal_string(u64::MAX), "18446744073709551615");
    for text in ["0", "+7", "007", "4294967295"] {
        assert_eq!(parse_u32(text), text.parse::<u32>().ok(), "{text}");
    }
    for text in ["", "+", "-1", "1 ", "4294967296", "x"] {
        assert_eq!(parse_u32(text), None, "{text}");
    }
    assert_eq!(hex_string(&[0, 0xab, 0xff]), "00abff");
}

#[test]
fn floats_round_like_the_machine() {
    for value in [0.0f32, -0.0, 0.5, -0.5, 1.5, -1.5, 3.0, -3.0, 1e6, -1e6, 0.1, -0.1, 8_388_609.0] {
        assert_eq!(float(value).floor_to_i64(), value.floor().max(0.0) as i64, "{value}");
        assert_eq!(float(value).ceil_to_i64(), value.ceil().max(0.0) as i64, "{value}");
    }
    assert!(!float(f32::NAN).is_finite());
    assert!(!float(f32::NEG_INFINITY).is_finite());
    assert!(float(f32::MAX).is_finite());
    assert!(same_number(float(0.0), float(-0.0)));
    assert!(!same_number(float(f32::NAN), float(f32::NAN)));
    for value in [0, 1, -1, 16_777_217, -16_777_219, i32::MAX, i32::MIN, 123_456_789] {
        assert_eq!(round_to_float(value), (value as f32).max(0.0) as i64, "{value}");
    }
    for value in [0i64, 33_554_433, 33_554_435, -33_554_435, 1_000_000_007, -1_000_000_007] {
        assert_eq!(to_single(value), value as f32 as i64, "{value}");
    }
}

#[test]
fn names_are_kept_in_order() {
    let mut map = NameMap::new();
    for name in ["b", "a", "c", "\u{ff5e}", "\u{1f600}"] {
        assert!(map.insert_new(name.to_string(), name.len()));
    }
    assert!(!map.insert_new("a".to_string(), 9));
    assert_eq!(map.names, ["a", "b", "c", "\u{ff5e}", "\u{1f600}"]);
    assert_eq!(map.get("a"), Some(&1));
    *map.get_mut("b").unwrap() = 7;
    assert_eq!(map.remove("b"), Some(7));
    assert_eq!(map.remove("b"), None);
    assert!(!map.contains("b") && map.contains("c"));
    assert_eq!(map.len(), 4);
}

#[test]
fn catalogs_name_every_instruction() {
    let ids = release_opcode_ids();
    assert_eq!(ids.len(), usize::from(OPCODE_COUNT));
    let names = vec!["Wait".to_string(), "Exit".to_string()];
    let calls = release_syscall_ids(&names);
    assert_eq!(calls.len(), 2);
    assert!(calls[0] < calls[1]);
    assert_eq!(
        release_syscall_catalog_hash(&names).to_hex(),
        release_syscall_catalog_hash(&vec!["Exit".to_string(), "Wait".to_string()]).to_hex()
    );
}

#[test]
fn scales_are_text_of_a_usable_number() {
    assert_eq!(parse_old_school_scale(b" scale =  1.5 \n".to_vec()).unwrap(), "1.5");
    for bad in ["", "1.5", "size = 1.5", "scale = 2", "scale = 1.0\nother = 2.0"] {
        assert!(parse_old_school_scale(bad.as_bytes().to_vec()).is_err(), "{bad}");
    }
    assert!(parse_old_school_scale(vec![0xff]).is_err());
    assert!(check_old_school_scale(Some(float(1.5))).is_ok());
    for bad in [None, Some(float(0.0)), Some(float(-1.0)), Some(float(f32::NAN))] {
        assert!(check_old_school_scale(bad).is_err());
    }
    assert!(load_required_old_school_scale(Ok(b"scale=2e0".to_vec())).is_ok());
    assert_eq!(
        load_required_old_school_scale(Err(RfvpError::NotFound)).err().unwrap().0,
        RfvpError::NotFound
    );
}
