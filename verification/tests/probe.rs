use scoutty::probe::Category;

#[test]
fn category_all_is_complete() {
    // Category::ALL must list every category; names and parsing must agree.
    assert_eq!(Category::ALL.len(), 8);
    for &cat in &Category::ALL {
        let s = cat.name();
        assert_eq!(s.parse::<Category>().unwrap(), cat);
    }
}

#[test]
fn no_replies_means_unknown() {
    // Every probe that the library reads answers "unknown", with no value,
    // when the terminal said nothing.
    for probe in scoutty::probe::all_probes() {
        if probe.can_interpret(&[]) {
            let (status, value) = probe.interpret(&[]);
            assert_eq!(status, scoutty::probe::ProbeStatus::Unknown, "{}", probe.name);
            assert_eq!(value, None);
        }
    }
}

#[test]
fn value_only_when_supported() {
    let mut parser = scoutty::parser::ResponseParser::new();
    parser.feed(b"\x1b[?62;4c\x1b[>1;10;0c\x1b[?2026;0$y\x1bP0$r\x1b\\\x1b]11;rgb:ffff/ffff/ffff\x1b\\");
    let events = parser.events();
    for probe in scoutty::probe::all_probes() {
        if probe.can_interpret(events) {
            let (status, value) = probe.interpret(events);
            if status != scoutty::probe::ProbeStatus::Supported {
                assert_eq!(value, None, "{}", probe.name);
            }
        }
    }
}

#[test]
fn category_names_round_trip() {
    assert_eq!(Category::Styling.name(), "styling");
    assert_eq!("styling".parse::<Category>().unwrap(), Category::Styling);
    assert_eq!("Styling".parse::<Category>().unwrap_err(), "unknown category: Styling");
}
