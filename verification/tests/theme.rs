use scoutty::parser::{Event, ResponseParser};
use scoutty::probe::{all_probes, Interpreter, ProbeStatus};
use scoutty::probes::colors::{rgb_components_of, theme_background_of};
use scoutty::session::collect_results;

#[test]
fn rgb_components_by_digit_count() {
    assert_eq!(rgb_components_of("rgb:0000/0000/0000"), Some(vec![(0, 0xffff); 3]));
    assert_eq!(rgb_components_of("rgb:f5f5/f5f5/f5f5"), Some(vec![(0xf5f5, 0xffff); 3]));
    assert_eq!(rgb_components_of("rgb:ff/ff/ff"), Some(vec![(0xff, 0xff); 3]));
    assert_eq!(
        rgb_components_of("rgb:f/1c/abc"),
        Some(vec![(0xf, 0xf), (0x1c, 0xff), (0xabc, 0xfff)])
    );
    assert_eq!(rgb_components_of("rgb:ff/ff"), None);
    assert_eq!(rgb_components_of("rgb:ff/ff/ff/ff"), None);
    assert_eq!(rgb_components_of("rgb:fffff/0/0"), None);
    assert_eq!(rgb_components_of("rgb:gg/00/00"), None);
    assert_eq!(rgb_components_of("#ffffff"), None);
}

#[test]
fn theme_reads_first_rgb_background() {
    let mut p = ResponseParser::new();
    p.feed(b"\x1b]10;rgb:ffff/ffff/ffff\x07\x1b]11;junk\x07\x1b]11;rgb:1c1c/1c1c/1c1c\x1b\\");
    assert_eq!(theme_background_of(p.events()), Some(vec![(0x1c1c, 0xffff); 3]));
    assert_eq!(theme_background_of(&[]), None);
}

#[test]
fn collect_results_in_probe_order() {
    let probes: Vec<_> = all_probes()
        .into_iter()
        .filter(|p| p.name == "da2" || matches!(p.interpreter, Interpreter::DarkLightTheme))
        .collect();
    assert_eq!(probes.len(), 2);
    let mut parser = ResponseParser::new();
    parser.feed(b"\x1b[>1;10;0c");
    let theme = (ProbeStatus::Supported, Some("dark (L=0.010)".to_string()));
    let results = collect_results(&probes, parser.events(), &theme, false);
    assert_eq!(results.len(), 2);
    for (probe, result) in probes.iter().zip(&results) {
        assert_eq!(result.name, probe.name);
        if matches!(probe.interpreter, Interpreter::DarkLightTheme) {
            assert_eq!(result.status, ProbeStatus::Supported);
            assert_eq!(result.value.as_deref(), Some("dark (L=0.010)"));
        } else {
            assert_eq!(result.status, ProbeStatus::Supported);
            assert!(result.value.as_deref().unwrap().starts_with("VT220"));
        }
        assert_eq!(result.raw_query, None);
    }
    let none: Vec<Event> = Vec::new();
    let results = collect_results(&probes, &none, &(ProbeStatus::Unknown, None), true);
    assert!(results.iter().all(|r| r.status == ProbeStatus::Unknown && r.value.is_none()));
    assert!(results.iter().all(|r| r.raw_query.is_some()));
}

#[test]
fn valid_utf8_payloads_read_as_text() {
    let mut p = ResponseParser::new();
    p.feed(b"\x1bP>|kitty(0.35.2)\x1b\\\x1b_Gi=1;OK\x1b\\");
    let dbg = format!("{:?}", p.events());
    assert!(dbg.contains("XtVersion { version: \"kitty(0.35.2)\" }"));
    assert!(dbg.contains("KittyGraphics { payload: \"Gi=1;OK\" }"));
}
