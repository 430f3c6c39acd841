use scoutty::parser::{Event, ModeSetting, ResponseParser, MAX_PAYLOAD_LEN};

#[test]
fn parse_da1() {
    let mut parser = ResponseParser::new();
    parser.feed(b"\x1b[?62;4;6c");
    let events = parser.events();
    assert_eq!(events.len(), 1);
    match &events[0] {
        Event::Da1 { params } => assert_eq!(params, &[62, 4, 6]),
        other => panic!("expected DA1, got {other:?}"),
    }
}

#[test]
fn parse_da1_split_across_reads() {
    let mut parser = ResponseParser::new();
    parser.feed(b"\x1b[?63");
    parser.feed(b";4c");
    let events = parser.events();
    assert_eq!(events.len(), 1);
    match &events[0] {
        Event::Da1 { params } => assert_eq!(params, &[63, 4]),
        other => panic!("expected DA1, got {other:?}"),
    }
}

#[test]
fn parse_da2() {
    let mut parser = ResponseParser::new();
    parser.feed(b"\x1b[>1;10;0c");
    let events = parser.events();
    assert_eq!(events.len(), 1);
    match &events[0] {
        Event::Da2 { params } => assert_eq!(params, &[1, 10, 0]),
        other => panic!("expected DA2, got {other:?}"),
    }
}

#[test]
fn parse_decrpm_set() {
    let mut parser = ResponseParser::new();
    parser.feed(b"\x1b[?2026;1$y");
    let events = parser.events();
    assert_eq!(events.len(), 1);
    match &events[0] {
        Event::ModeReport { mode, setting } => {
            assert_eq!(*mode, 2026);
            assert_eq!(*setting, ModeSetting::Enabled);
        }
        other => panic!("expected ModeReport, got {other:?}"),
    }
}

#[test]
fn parse_decrpm_not_recognized() {
    let mut parser = ResponseParser::new();
    parser.feed(b"\x1b[?2027;0$y");
    let events = parser.events();
    assert_eq!(events.len(), 1);
    match &events[0] {
        Event::ModeReport { mode, setting } => {
            assert_eq!(*mode, 2027);
            assert_eq!(*setting, ModeSetting::NotRecognized);
        }
        other => panic!("expected ModeReport, got {other:?}"),
    }
}

#[test]
fn parse_xtversion() {
    let mut parser = ResponseParser::new();
    parser.feed(b"\x1bP>|kitty(0.35.2)\x1b\\");
    let events = parser.events();
    assert_eq!(events.len(), 1);
    match &events[0] {
        Event::XtVersion { version } => assert_eq!(version, "kitty(0.35.2)"),
        other => panic!("expected XtVersion, got {other:?}"),
    }
}

#[test]
fn parse_da3() {
    let mut parser = ResponseParser::new();
    parser.feed(b"\x1bP!|AABBCC\x1b\\");
    let events = parser.events();
    assert_eq!(events.len(), 1);
    match &events[0] {
        Event::Da3 { id } => assert_eq!(id, "AABBCC"),
        other => panic!("expected DA3, got {other:?}"),
    }
}

#[test]
fn parse_osc_color() {
    let mut parser = ResponseParser::new();
    parser.feed(b"\x1b]11;rgb:1c1c/1c1c/1c1c\x1b\\");
    let events = parser.events();
    assert_eq!(events.len(), 1);
    match &events[0] {
        Event::OscColor {
            index,
            sub_index,
            value,
        } => {
            assert_eq!(*index, 11);
            assert_eq!(*sub_index, None);
            assert_eq!(value, "rgb:1c1c/1c1c/1c1c");
        }
        other => panic!("expected OscColor, got {other:?}"),
    }
}

#[test]
fn parse_osc52_clipboard() {
    let mut parser = ResponseParser::new();
    // OSC 52 ; c ; base64data ST
    parser.feed(b"\x1b]52;c;SGVsbG8=\x1b\\");
    let events = parser.events();
    assert_eq!(events.len(), 1);
    match &events[0] {
        Event::OscColor {
            index,
            sub_index,
            value,
        } => {
            assert_eq!(*index, 52);
            assert_eq!(sub_index.as_deref(), Some("c"));
            assert_eq!(value, "SGVsbG8=");
        }
        other => panic!("expected OscColor, got {other:?}"),
    }
}

#[test]
fn parse_osc4_palette_color() {
    let mut parser = ResponseParser::new();
    parser.feed(b"\x1b]4;1;rgb:cd00/0000/0000\x1b\\");
    let events = parser.events();
    assert_eq!(events.len(), 1);
    match &events[0] {
        Event::OscColor {
            index,
            sub_index,
            value,
        } => {
            assert_eq!(*index, 4);
            assert_eq!(sub_index.as_deref(), Some("1"));
            assert_eq!(value, "rgb:cd00/0000/0000");
        }
        other => panic!("expected OscColor, got {other:?}"),
    }
}

#[test]
fn parse_kitty_keyboard() {
    let mut parser = ResponseParser::new();
    parser.feed(b"\x1b[?1u");
    let events = parser.events();
    assert_eq!(events.len(), 1);
    match &events[0] {
        Event::KittyKeyboard { flags } => assert_eq!(*flags, 1),
        other => panic!("expected KittyKeyboard, got {other:?}"),
    }
}

#[test]
fn parse_kitty_graphics_apc() {
    let mut parser = ResponseParser::new();
    parser.feed(b"\x1b_Gi=1;OK\x1b\\");
    let events = parser.events();
    assert_eq!(events.len(), 1);
    match &events[0] {
        Event::KittyGraphics { payload } => assert_eq!(payload, "Gi=1;OK"),
        other => panic!("expected KittyGraphics, got {other:?}"),
    }
}

#[test]
fn parse_window_op() {
    let mut parser = ResponseParser::new();
    parser.feed(b"\x1b[6;20;10t");
    let events = parser.events();
    assert_eq!(events.len(), 1);
    match &events[0] {
        Event::WindowOp { op, params } => {
            assert_eq!(*op, 6);
            assert_eq!(params, &[20, 10]);
        }
        other => panic!("expected WindowOp, got {other:?}"),
    }
}

#[test]
fn parse_decrqss() {
    let mut parser = ResponseParser::new();
    parser.feed(b"\x1bP1$r48;2;150;150;150m\x1b\\");
    let events = parser.events();
    assert_eq!(events.len(), 1);
    match &events[0] {
        Event::Decrqss { valid, payload } => {
            assert!(*valid);
            assert!(payload.contains("150"));
        }
        other => panic!("expected Decrqss, got {other:?}"),
    }
}

#[test]
fn parse_xtsmgraphics() {
    let mut parser = ResponseParser::new();
    parser.feed(b"\x1b[?2;0;256S");
    let events = parser.events();
    assert_eq!(events.len(), 1);
    match &events[0] {
        Event::XtSmGraphics {
            item,
            status,
            values,
        } => {
            assert_eq!(*item, 2);
            assert_eq!(*status, 0);
            assert_eq!(values, &[256]);
        }
        other => panic!("expected XtSmGraphics, got {other:?}"),
    }
}

#[test]
fn parse_xtgettcap_found() {
    let mut parser = ResponseParser::new();
    // DCS 1 +r 544e=787465726d ST  → TN=xterm
    parser.feed(b"\x1bP1+r544e=787465726d\x1b\\");
    let events = parser.events();
    assert_eq!(events.len(), 1);
    match &events[0] {
        Event::XtGetTcap { name, value } => {
            assert_eq!(name, "TN");
            assert_eq!(value.as_deref(), Some("xterm"));
        }
        other => panic!("expected XtGetTcap, got {other:?}"),
    }
}

#[test]
fn parse_xtgettcap_not_found() {
    let mut parser = ResponseParser::new();
    // DCS 0 +r 544e ST  → TN not found (no =value)
    parser.feed(b"\x1bP0+r544e\x1b\\");
    let events = parser.events();
    assert_eq!(events.len(), 1);
    match &events[0] {
        Event::XtGetTcap { name, value } => {
            assert_eq!(name, "TN");
            assert!(value.is_none());
        }
        other => panic!("expected XtGetTcap, got {other:?}"),
    }
}

#[test]
fn parse_xtgettcap_not_found_with_eq() {
    let mut parser = ResponseParser::new();
    // DCS 0 +r 544e=787465726d ST → param=0 means not found even with value
    parser.feed(b"\x1bP0+r544e=787465726d\x1b\\");
    let events = parser.events();
    assert_eq!(events.len(), 1);
    match &events[0] {
        Event::XtGetTcap { name, value } => {
            assert_eq!(name, "TN");
            assert!(value.is_none());
        }
        other => panic!("expected XtGetTcap, got {other:?}"),
    }
}

#[test]
fn apc_overflow_discarded() {
    let mut parser = ResponseParser::new();
    // Start APC, feed more than 64KB without terminating
    parser.feed(b"\x1b_G");
    let big = vec![b'x'; MAX_PAYLOAD_LEN];
    parser.feed(&big);
    // The overflowed APC should be discarded, no event produced
    assert!(parser.events().is_empty());
    assert_eq!(parser.apc_overflows(), 1);
    // Parser recovers: a subsequent valid sequence still parses
    parser.feed(b"\x1b[?62;4c");
    assert_eq!(parser.events().len(), 1);
    assert!(matches!(&parser.events()[0], Event::Da1 { .. }));
}

#[test]
fn apc_overflow_counter_accumulates() {
    let mut parser = ResponseParser::new();
    assert_eq!(parser.apc_overflows(), 0);

    // First overflow
    parser.feed(b"\x1b_G");
    parser.feed(&vec![b'x'; MAX_PAYLOAD_LEN]);
    assert_eq!(parser.apc_overflows(), 1);

    // Second overflow
    parser.feed(b"\x1b_G");
    parser.feed(&vec![b'y'; MAX_PAYLOAD_LEN]);
    assert_eq!(parser.apc_overflows(), 2);

    // A normal APC that fits should not increment the counter
    parser.feed(b"\x1b_Gi=1;OK\x1b\\");
    assert_eq!(parser.apc_overflows(), 2);
}

#[test]
fn parse_multiple_events() {
    let mut parser = ResponseParser::new();
    parser.feed(b"\x1b[?2026;1$y\x1b[?1004;2$y\x1b[?62;4c");
    let events = parser.events();
    assert_eq!(events.len(), 3);
    assert!(matches!(&events[0], Event::ModeReport { mode: 2026, .. }));
    assert!(matches!(&events[1], Event::ModeReport { mode: 1004, .. }));
    assert!(matches!(&events[2], Event::Da1 { .. }));
}

