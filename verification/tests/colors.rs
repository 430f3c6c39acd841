use scoutty::parser::Event;
use scoutty::probe::ProbeStatus;
use scoutty::probes::colors::{normalize_color, probes};

#[test]
fn normalize_16bit_rgb() {
    assert_eq!(normalize_color("rgb:ffff/0000/8080"), "#ff0080");
}

#[test]
fn normalize_8bit_rgb() {
    assert_eq!(normalize_color("rgb:ff/00/80"), "#ff0080");
}

#[test]
fn passthrough_non_rgb() {
    assert_eq!(normalize_color("cmyk:0/0/0/0"), "cmyk:0/0/0/0");
}

#[test]
fn italic_supported() {
    let probes = probes();
    let probe = probes.iter().find(|p| p.name == "italic").unwrap();
    let events = vec![Event::Decrqss {
        valid: true,
        payload: "3m".to_string(),
    }];
    let (status, value) = probe.interpret(&events);
    assert!(matches!(status, ProbeStatus::Supported));
    assert_eq!(value.unwrap(), "3m");
}

#[test]
fn italic_not_confused_by_styled_underline() {
    let probes = probes();
    let probe = probes.iter().find(|p| p.name == "italic").unwrap();
    // "4:3m" is the styled-underline response - should NOT match italic
    let events = vec![Event::Decrqss {
        valid: true,
        payload: "4:3m".to_string(),
    }];
    let (status, _) = probe.interpret(&events);
    assert!(matches!(status, ProbeStatus::Unsupported));
}

#[test]
fn dim_not_confused_by_true_color() {
    let probes = probes();
    let probe = probes.iter().find(|p| p.name == "dim").unwrap();
    // "48;2;150;150;150m" has "2" as a parameter - should NOT match dim
    let events = vec![Event::Decrqss {
        valid: true,
        payload: "48;2;150;150;150m".to_string(),
    }];
    let (status, _) = probe.interpret(&events);
    assert!(matches!(status, ProbeStatus::Unsupported));
}

#[test]
fn dim_supported_with_reset_prefix() {
    let probes = probes();
    let probe = probes.iter().find(|p| p.name == "dim").unwrap();
    let events = vec![Event::Decrqss {
        valid: true,
        payload: "0;2m".to_string(),
    }];
    let (status, _) = probe.interpret(&events);
    assert!(matches!(status, ProbeStatus::Supported));
}

#[test]
fn double_underline_supported_sgr21() {
    let probes = probes();
    let probe = probes
        .iter()
        .find(|p| p.name == "double-underline")
        .unwrap();
    let events = vec![Event::Decrqss {
        valid: true,
        payload: "21m".to_string(),
    }];
    let (status, _) = probe.interpret(&events);
    assert!(matches!(status, ProbeStatus::Supported));
}

#[test]
fn double_underline_supported_4_colon_2() {
    let probes = probes();
    let probe = probes
        .iter()
        .find(|p| p.name == "double-underline")
        .unwrap();
    // Terminals like foot normalize SGR 21 to the 4:2 subparameter syntax
    let events = vec![Event::Decrqss {
        valid: true,
        payload: "0;4:2m".to_string(),
    }];
    let (status, value) = probe.interpret(&events);
    assert!(matches!(status, ProbeStatus::Supported));
    assert_eq!(value.unwrap(), "0;4:2m");
}

#[test]
fn sgr_attr_unknown_no_response() {
    let probes = probes();
    let probe = probes.iter().find(|p| p.name == "italic").unwrap();
    let (status, _) = probe.interpret(&[]);
    assert!(matches!(status, ProbeStatus::Unknown));
}

#[test]
fn cursor_style_report_supported() {
    let probes = probes();
    let probe = probes
        .iter()
        .find(|p| p.name == "cursor-style-report")
        .unwrap();
    // Standard payload: just "Ps SP q"
    let events = vec![Event::Decrqss {
        valid: true,
        payload: "2 q".to_string(),
    }];
    let (status, value) = probe.interpret(&events);
    assert!(matches!(status, ProbeStatus::Supported));
    assert_eq!(value.unwrap(), "steady block (2)");
}

#[test]
fn cursor_style_report_with_selector_prefix() {
    let probes = probes();
    let probe = probes
        .iter()
        .find(|p| p.name == "cursor-style-report")
        .unwrap();
    // Some terminals include the selector prefix: "SP q Ps SP q"
    let events = vec![Event::Decrqss {
        valid: true,
        payload: " q2 q".to_string(),
    }];
    let (status, value) = probe.interpret(&events);
    assert!(matches!(status, ProbeStatus::Supported));
    assert_eq!(value.unwrap(), "steady block (2)");
}

#[test]
fn cursor_style_report_blinking_bar() {
    let probes = probes();
    let probe = probes
        .iter()
        .find(|p| p.name == "cursor-style-report")
        .unwrap();
    let events = vec![Event::Decrqss {
        valid: true,
        payload: "5 q".to_string(),
    }];
    let (status, value) = probe.interpret(&events);
    assert!(matches!(status, ProbeStatus::Supported));
    assert_eq!(value.unwrap(), "blinking bar (5)");
}

#[test]
fn cursor_style_report_unknown_no_response() {
    let probes = probes();
    let probe = probes
        .iter()
        .find(|p| p.name == "cursor-style-report")
        .unwrap();
    let (status, _) = probe.interpret(&[]);
    assert!(matches!(status, ProbeStatus::Unknown));
}

#[test]
fn multi_probe_both_forms_match() {
    let probes = probes();
    let probe = probes.iter().find(|p| p.name == "true-color").unwrap();
    let events = vec![
        Event::Decrqss {
            valid: true,
            payload: "48;2;150;150;150m".to_string(),
        },
        Event::Decrqss {
            valid: true,
            payload: "48:2::150:150:150m".to_string(),
        },
    ];
    let (status, value) = probe.interpret(&events);
    assert!(matches!(status, ProbeStatus::Supported));
    let v = value.unwrap();
    assert!(v.contains("48;2;150;150;150m"), "got: {v}");
    assert!(v.contains("48:2::150:150:150m"), "got: {v}");
}

#[test]
fn multi_probe_one_form_matches() {
    let probes = probes();
    let probe = probes.iter().find(|p| p.name == "true-color").unwrap();
    // Only the 5-subparam colon form matches (like koshi)
    let events = vec![
        Event::Decrqss {
            valid: true,
            payload: "0m".to_string(),
        },
        Event::Decrqss {
            valid: true,
            payload: "0m".to_string(),
        },
        Event::Decrqss {
            valid: true,
            payload: "48:2:150:150:150m".to_string(),
        },
    ];
    let (status, value) = probe.interpret(&events);
    assert!(matches!(status, ProbeStatus::Supported));
    assert_eq!(value.unwrap(), "48:2:150:150:150m");
}

#[test]
fn multi_probe_none_match() {
    let probes = probes();
    let probe = probes.iter().find(|p| p.name == "true-color").unwrap();
    let events = vec![
        Event::Decrqss {
            valid: true,
            payload: "0m".to_string(),
        },
        Event::Decrqss {
            valid: true,
            payload: "0m".to_string(),
        },
        Event::Decrqss {
            valid: true,
            payload: "0m".to_string(),
        },
    ];
    let (status, _) = probe.interpret(&events);
    assert!(matches!(status, ProbeStatus::Unsupported));
}

#[test]
fn multi_probe_no_events() {
    let probes = probes();
    let probe = probes.iter().find(|p| p.name == "true-color").unwrap();
    let (status, _) = probe.interpret(&[]);
    assert!(matches!(status, ProbeStatus::Unknown));
}

#[test]
fn underline_color_5_subparam_supported() {
    let probes = probes();
    let probe = probes.iter().find(|p| p.name == "underline-color").unwrap();
    // Terminal only understands 5-subparam form
    let events = vec![
        Event::Decrqss {
            valid: true,
            payload: "0m".to_string(),
        },
        Event::Decrqss {
            valid: true,
            payload: "58:2:170:170:170m".to_string(),
        },
    ];
    let (status, value) = probe.interpret(&events);
    assert!(matches!(status, ProbeStatus::Supported));
    assert_eq!(value.unwrap(), "58:2:170:170:170m");
}
