use rfvp_hosted_provider::hcb::{game_mode_size, FvpHcbScript};
use rfvp_hosted_provider::nls::FvpNls;

fn script(title: &[u8], calls: &[(u8, &[u8])]) -> Vec<u8> {
    let mut bytes = 16u32.to_le_bytes().to_vec();
    bytes.resize(16, 0);
    bytes.extend_from_slice(&4u32.to_le_bytes());
    bytes.extend_from_slice(&1u16.to_le_bytes());
    bytes.extend_from_slice(&2u16.to_le_bytes());
    bytes.extend_from_slice(&[8, 0, title.len() as u8]);
    bytes.extend_from_slice(title);
    bytes.extend_from_slice(&(calls.len() as u16).to_le_bytes());
    for (args, name) in calls {
        bytes.extend_from_slice(&[*args, name.len() as u8]);
        bytes.extend_from_slice(name);
    }
    bytes.extend_from_slice(&0u16.to_le_bytes());
    bytes
}

#[test]
fn parses_synthetic_header() {
    let mut bytes = vec![0; 64];
    bytes[0..4].copy_from_slice(&16u32.to_le_bytes());
    let mut desc = Vec::new();
    desc.extend_from_slice(&4u32.to_le_bytes());
    desc.extend_from_slice(&1u16.to_le_bytes());
    desc.extend_from_slice(&2u16.to_le_bytes());
    desc.extend_from_slice(&[8, 0, 2, b'X', 0]);
    desc.extend_from_slice(&1u16.to_le_bytes());
    desc.extend_from_slice(&[1, 5, b'W', b'a', b'i', b't', 0]);
    desc.extend_from_slice(&0u16.to_le_bytes());
    bytes.truncate(16);
    bytes.extend_from_slice(&desc);
    let script = FvpHcbScript::parse(bytes, FvpNls::Utf8).unwrap();
    assert_eq!((script.header.width, script.header.height), (1280, 720));
    assert_eq!(script.header.syscalls[0].name, "Wait");
}

#[test]
fn header_fields_are_kept() {
    let bytes = script(b"X\0", &[(1, b"Wait\0"), (0, b"Exit\0")]);
    let parsed = FvpHcbScript::parse(bytes.clone(), FvpNls::Utf8).unwrap();
    assert_eq!(parsed.bytes(), bytes);
    assert_eq!(parsed.code(), &bytes[4..16]);
    assert_eq!(parsed.header.entry_point, 4);
    assert_eq!(parsed.header.title_byte_len, 2);
    assert_eq!(parsed.header.non_volatile_global_count, 1);
    assert_eq!(parsed.header.volatile_global_count, 2);
    assert_eq!(parsed.syscall(1).unwrap().name, "Exit");
    assert!(parsed.syscall(2).is_none());
    assert_eq!(parsed.nls(), FvpNls::Utf8);
}

#[test]
fn malformed_headers_have_codes() {
    let code = |bytes: Vec<u8>| FvpHcbScript::parse(bytes, FvpNls::Utf8).unwrap_err().code();
    assert_eq!(code(vec![1, 2, 3]), "FVP_HCB_HEADER");
    assert_eq!(code(vec![200, 0, 0, 0, 0]), "FVP_HCB_DESCRIPTOR_OFFSET");
    let error = FvpHcbScript::parse(vec![1, 2, 3], FvpNls::Utf8).unwrap_err();
    assert_eq!(error.to_text(), "FVP_HCB_HEADER: HCB is shorter than its offset header");
    assert!(FvpHcbScript::parse(script(b"X\0", &[(0, b"A\0"), (0, b"A\0")]), FvpNls::Utf8).is_err());
    let mut cut = script(b"X\0", &[]);
    cut.truncate(cut.len() - 3);
    assert!(FvpHcbScript::parse(cut, FvpNls::Utf8).is_err());
}

#[test]
fn strings_are_decoded_in_their_encoding() {
    let decode = |nls: FvpNls, bytes: &[u8]| {
        let parsed = FvpHcbScript::parse(script(b"X\0", &[]), nls).unwrap();
        parsed.decode_script_string(bytes)
    };
    assert_eq!(decode(FvpNls::ShiftJis, &[0x83, 0x65, 0]).unwrap(), "\u{30c6}");
    assert_eq!(decode(FvpNls::Gbk, &[0xc4, 0xe3, 0]).unwrap(), "\u{4f60}");
    assert_eq!(decode(FvpNls::Utf8, "\u{e9}\0".as_bytes()).unwrap(), "\u{e9}");
    assert!(decode(FvpNls::Utf8, &[0xff, 0]).is_err());
    assert!(decode(FvpNls::Utf8, b"no end").is_err());
}

#[test]
fn game_modes_have_sizes() {
    assert_eq!(game_mode_size(8), Some((1280, 720)));
    assert_eq!(game_mode_size(255), None);
}

#[test]
fn a_byte_order_mark_is_taken_out() {
    let text = |bytes: &[u8]| FvpNls::Utf8.decode(bytes);
    assert_eq!(text(b"\xef\xbb\xbfa"), ("a".to_string(), false));
    assert_eq!(text("\u{3042}".as_bytes()), ("\u{3042}".to_string(), false));
    assert_eq!(text(b"\xff\xfeA\x00"), ("A".to_string(), false));
    assert_eq!(text(b"a\xc3"), ("a\u{fffd}".to_string(), true));
    assert_eq!(text(b"\xef\xbb"), ("\u{fffd}".to_string(), true));
}
