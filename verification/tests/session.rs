use scoutty::hex;
use scoutty::parser::{Event, ResponseParser};
use scoutty::probe::{all_probes, Category, ProbeStatus};
use scoutty::session::{
    build_query, probe_result, raw_response, select_probes, Phase, SelectError, Session,
};

fn names(probes: &[scoutty::probe::Probe]) -> Vec<&'static str> {
    probes.iter().map(|p| p.name).collect()
}

#[test]
fn build_query_ends_with_sentinel() {
    let all = all_probes();
    let da2: Vec<_> = all.into_iter().filter(|p| p.name == "da2").collect();
    let q = build_query(&da2);
    let mut expected = da2[0].query.clone();
    expected.extend_from_slice(b"\x1b[c");
    assert_eq!(q, expected);
}

#[test]
fn build_query_skips_sentinel_probe() {
    // DA1 is the sentinel: it is sent once, last.
    let all = all_probes();
    let da1: Vec<_> = all.into_iter().filter(|p| p.name == "da1").collect();
    assert!(da1[0].is_sentinel);
    assert_eq!(build_query(&da1), b"\x1b[c".to_vec());
    assert_eq!(build_query(&[]), b"\x1b[c".to_vec());
}

#[test]
fn select_by_name_keeps_report_order() {
    let names_in = vec!["da2".to_string(), "da1".to_string()];
    let chosen = select_probes(all_probes(), &names_in, None).ok().unwrap();
    assert_eq!(names(&chosen), vec!["da1", "da2"]);
}

#[test]
fn select_unknown_probe_is_an_error() {
    let names_in = vec!["da1".to_string(), "nope".to_string()];
    match select_probes(all_probes(), &names_in, None) {
        Err(e) => {
            assert!(matches!(e, SelectError::UnknownProbe { .. }));
            assert_eq!(e.message(), "unknown probe 'nope'");
        }
        Ok(_) => panic!("expected an error"),
    }
}

#[test]
fn select_by_category_with_spaces() {
    let chosen = select_probes(all_probes(), &vec![], Some("identity, geometry")).ok().unwrap();
    assert!(!chosen.is_empty());
    assert!(chosen
        .iter()
        .all(|p| p.category == Category::Identity || p.category == Category::Geometry));
    let expected = all_probes()
        .iter()
        .filter(|p| p.category == Category::Identity || p.category == Category::Geometry)
        .count();
    assert_eq!(chosen.len(), expected);
}

#[test]
fn select_bad_category_is_an_error() {
    match select_probes(all_probes(), &vec![], Some("identity,bogus")) {
        Err(e) => {
            assert!(matches!(e, SelectError::BadCategory { .. }));
            assert_eq!(e.message(), "unknown category: bogus");
        }
        Ok(_) => panic!("expected an error"),
    }
}

#[test]
fn select_nothing_is_an_error() {
    match select_probes(Vec::new(), &vec![], None) {
        Err(e) => {
            assert!(matches!(e, SelectError::NoneSelected));
            assert_eq!(e.message(), "no probes selected");
        }
        Ok(_) => panic!("expected an error"),
    }
}

#[test]
fn select_all_by_default() {
    let chosen = select_probes(all_probes(), &vec![], None).ok().unwrap();
    assert_eq!(chosen.len(), all_probes().len());
}

#[test]
fn session_phases_follow_reads() {
    let mut s = Session::new();
    assert_eq!(s.phase(), Phase::AwaitSentinel);
    assert_eq!(s.on_read(b"\x1b[>1;10;0c"), Phase::AwaitSentinel);
    assert_eq!(s.on_read(b"\x1b[?62;4c"), Phase::Drain);
    assert_eq!(s.on_read(b"\x1b]52;c;aGk=\x07"), Phase::Drain);
    assert_eq!(s.on_read(b""), Phase::Done);
    assert_eq!(s.on_read(b""), Phase::Done);
    assert!(s.parser().has_da1());
    assert_eq!(s.parser().events().len(), 3);
}

#[test]
fn session_timeout_without_sentinel() {
    let mut s = Session::new();
    assert_eq!(s.on_read(b""), Phase::Drain);
    assert_eq!(s.on_read(b""), Phase::Done);
    assert!(!s.parser().has_da1());
}

#[test]
fn probe_result_with_raw_query() {
    let all = all_probes();
    let da2 = all.iter().find(|p| p.name == "da2").unwrap();
    let r = probe_result(da2, ProbeStatus::Supported, Some("VT220".to_string()), true);
    assert_eq!(r.name, "da2");
    assert_eq!(r.category, Category::Identity);
    assert_eq!(r.status, ProbeStatus::Supported);
    assert_eq!(r.value.as_deref(), Some("VT220"));
    assert_eq!(r.raw_query, Some(hex::encode(&da2.query)));
    let r = probe_result(da2, ProbeStatus::Unknown, None, false);
    assert_eq!(r.raw_query, None);
}

#[test]
fn raw_response_is_hex() {
    assert_eq!(raw_response(b"\x1b[c", true), Some("1b5b63".to_string()));
    assert_eq!(raw_response(b"\x1b[c", false), None);
}

#[test]
fn feeding_in_pieces_gives_the_same_events() {
    let input: &[u8] = b"\x1b[?62;4c\x1bP1+r544e=787465726d\x1b\\\x1b]11;rgb:0000/0000/0000\x07";
    let mut whole = ResponseParser::new();
    whole.feed(input);
    for cut in 0..=input.len() {
        let mut parts = ResponseParser::new();
        parts.feed(&input[..cut]);
        parts.feed(&input[cut..]);
        assert_eq!(format!("{:?}", parts.events()), format!("{:?}", whole.events()));
        assert_eq!(parts.raw_bytes(), whole.raw_bytes());
    }
}

#[test]
fn events_only_grow() {
    let mut p = ResponseParser::new();
    p.feed(b"\x1b[?62;4c");
    let before = format!("{:?}", p.events());
    p.feed(b"\x1b[>1;10;0c");
    assert_eq!(p.events().len(), 2);
    assert!(format!("{:?}", p.events()).starts_with(&before[..before.len() - 1]));
    assert!(matches!(p.events()[0], Event::Da1 { .. }));
}

#[test]
fn hex_roundtrip() {
    let bytes: Vec<u8> = (0..=255).collect();
    let s = hex::encode(&bytes);
    assert_eq!(s.len(), 512);
    assert_eq!(hex::decode(&s), Some(bytes));
    assert_eq!(hex::encode(b"TN"), "544e");
    assert_eq!(hex::decode("544E"), Some(b"TN".to_vec()));
    assert_eq!(hex::decode("5"), None);
    assert_eq!(hex::decode("zz"), None);
    assert_eq!(hex::decode(""), Some(Vec::new()));
}

#[test]
fn apc_overflows_never_go_down() {
    let mut p = ResponseParser::new();
    let mut big = b"\x1b_G".to_vec();
    big.extend(std::iter::repeat(b'a').take(70_000));
    p.feed(&big);
    assert_eq!(p.apc_overflows(), 1);
    p.feed(b"\x1b\\\x1b[?62c\x1b_Gok\x1b\\");
    assert_eq!(p.apc_overflows(), 1);
}
