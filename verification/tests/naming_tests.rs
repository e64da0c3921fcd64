use quincy_tun::adapter::{bytes_equal, contains_name, default_name, AdapterSearch, AdapterStep};
use quincy_tun::decimal::{parse_u32, push_decimal, IntParseError};
use quincy_tun::interfaces::select_named;
use quincy_tun::utun::{c_name_field, c_field_text, utun_unit, UtunNameError, IFNAMSIZ};

#[test]
fn parse_u32_follows_decimal_grammar() {
    assert_eq!(parse_u32(b"0"), Ok(0));
    assert_eq!(parse_u32(b"42"), Ok(42));
    assert_eq!(parse_u32(b"+7"), Ok(7));
    assert_eq!(parse_u32(b"007"), Ok(7));
    assert_eq!(parse_u32(b"4294967295"), Ok(u32::MAX));
    assert_eq!(parse_u32(b""), Err(IntParseError::Empty));
    assert_eq!(parse_u32(b"+"), Err(IntParseError::InvalidDigit));
    assert_eq!(parse_u32(b"-"), Err(IntParseError::InvalidDigit));
    assert_eq!(parse_u32(b"-1"), Err(IntParseError::InvalidDigit));
    assert_eq!(parse_u32(b"12a"), Err(IntParseError::InvalidDigit));
    assert_eq!(parse_u32(b" 1"), Err(IntParseError::InvalidDigit));
    assert_eq!(parse_u32(b"4294967296"), Err(IntParseError::Overflow));
    assert_eq!(parse_u32(b"99999999999a"), Err(IntParseError::Overflow));
}

#[test]
fn parse_u32_agrees_with_std() {
    for text in ["", "+", "-", "0", "12", "+12", "-12", "1_0", "4294967295", "4294967296", "x1", "1x"] {
        let std_result = text.parse::<u32>().map_err(|e| e.to_string());
        let ours = parse_u32(text.as_bytes()).map_err(|e| e.message().to_string());
        assert_eq!(std_result, ours, "text {:?}", text);
    }
}

#[test]
fn push_decimal_renders_numbers() {
    let mut out = b"tun".to_vec();
    push_decimal(0, &mut out);
    assert_eq!(out, b"tun0".to_vec());
    let mut out = Vec::new();
    push_decimal(1234567890, &mut out);
    assert_eq!(out, b"1234567890".to_vec());
    let mut out = Vec::new();
    push_decimal(u64::MAX, &mut out);
    assert_eq!(out, u64::MAX.to_string().into_bytes());
}

#[test]
fn utun_unit_translates_names() {
    assert_eq!(utun_unit(None), Ok(0));
    assert_eq!(utun_unit(Some("utun0")), Ok(1));
    assert_eq!(utun_unit(Some("utun3")), Ok(4));
    assert_eq!(utun_unit(Some("utun+3")), Ok(4));
}

#[test]
fn utun_unit_refuses_bad_names() {
    assert_eq!(utun_unit(Some("tun3")), Err(UtunNameError::MissingUtunPrefix));
    assert_eq!(utun_unit(Some("ut")), Err(UtunNameError::MissingUtunPrefix));
    assert_eq!(utun_unit(Some("utun")), Err(UtunNameError::InvalidUnit(IntParseError::Empty)));
    assert_eq!(utun_unit(Some("utunx")), Err(UtunNameError::InvalidUnit(IntParseError::InvalidDigit)));
    assert_eq!(
        utun_unit(Some("utun99999999999")),
        Err(UtunNameError::InvalidUnit(IntParseError::Overflow))
    );
    assert_eq!(utun_unit(Some("utun000000000001")), Ok(2));
    assert_eq!(utun_unit(Some("utun0000000000001")), Err(UtunNameError::TooLong));
}

#[test]
fn utun_error_messages() {
    assert_eq!(UtunNameError::TooLong.message(), "device name too long");
    assert_eq!(UtunNameError::MissingUtunPrefix.message(), "device name must start with utun");
    assert_eq!(
        UtunNameError::InvalidUnit(IntParseError::Empty).message(),
        "cannot parse integer from empty string"
    );
}

#[test]
fn c_name_field_pads_with_zeros() {
    let field = c_name_field(b"utun3", 16);
    assert_eq!(field.len(), 16);
    assert_eq!(&field[..5], b"utun3");
    assert!(field[5..].iter().all(|b| *b == 0));
    let full = c_name_field(b"0123456789abcdef", 16);
    assert_eq!(full, b"0123456789abcdef".to_vec());
}

#[test]
fn bytes_and_names() {
    assert!(bytes_equal(b"tun0", b"tun0"));
    assert!(!bytes_equal(b"tun0", b"tun1"));
    assert!(!bytes_equal(b"tun0", b"tun01"));
    let names = vec![b"eth0".to_vec(), b"tun0".to_vec()];
    assert!(contains_name(&names, b"tun0"));
    assert!(!contains_name(&names, b"tun1"));
    assert_eq!(default_name(0), b"tun0".to_vec());
    assert_eq!(default_name(17), b"tun17".to_vec());
}

fn created(step: &AdapterStep) -> Option<(Vec<u8>, Vec<u8>)> {
    match step {
        AdapterStep::Create { name, description } => Some((name.clone(), description.clone())),
        _ => None,
    }
}

#[test]
fn default_adapter_name_skips_existing() {
    let existing = vec![b"tun0".to_vec(), b"Ethernet".to_vec(), b"tun1".to_vec(), b"tun3".to_vec()];
    let (mut search, step) = AdapterSearch::new(None, None, existing);
    assert_eq!(created(&step), Some((b"tun2".to_vec(), b"tun2".to_vec())));
    // a failed creation moves on to the next free default name
    let step = search.creation_failed();
    assert_eq!(created(&step), Some((b"tun4".to_vec(), b"tun4".to_vec())));
}

#[test]
fn requested_adapter_name_is_checked_then_opened() {
    let existing = vec![b"vpn".to_vec()];
    let (search, step) = AdapterSearch::new(Some(b"vpn".to_vec()), Some(b"My VPN".to_vec()), existing);
    assert!(matches!(step, AdapterStep::CheckOrphaned { ref name } if name == b"vpn"));
    assert!(matches!(search.orphan_checked(false), AdapterStep::Open { ref name } if name == b"vpn"));
    assert_eq!(
        created(&search.orphan_checked(true)),
        Some((b"vpn".to_vec(), b"My VPN".to_vec()))
    );
}

#[test]
fn creation_gives_up_after_five_failures() {
    let (mut search, step) = AdapterSearch::new(Some(b"vpn".to_vec()), None, Vec::new());
    assert_eq!(created(&step), Some((b"vpn".to_vec(), b"vpn".to_vec())));
    for _ in 0..4 {
        let step = search.creation_failed();
        assert_eq!(created(&step), Some((b"vpn".to_vec(), b"vpn".to_vec())));
    }
    assert!(matches!(search.creation_failed(), AdapterStep::GiveUp));
    assert!(matches!(search.creation_failed(), AdapterStep::GiveUp));
}

#[test]
fn select_named_keeps_order() {
    let names = vec![b"lo".to_vec(), b"tun0".to_vec(), b"eth0".to_vec(), b"tun0".to_vec()];
    assert_eq!(select_named(&names, b"tun0"), vec![1, 3]);
    assert_eq!(select_named(&names, b"tun1"), Vec::<usize>::new());
}

#[test]
fn c_field_text_stops_at_nul() {
    assert_eq!(c_field_text(b"utun3\0\0junk"), b"utun3".to_vec());
    assert_eq!(c_field_text(b"full"), b"full".to_vec());
    assert_eq!(IFNAMSIZ, 16);
}
