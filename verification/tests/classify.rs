use scoutty::parser::{classify_csi, classify_dcs, classify_osc, Event, ModeSetting};

fn dbg(e: &Option<Event>) -> String {
    format!("{e:?}")
}

#[test]
fn classify_csi_replies() {
    let p = |v: &[u16]| v.iter().map(|&x| vec![x]).collect::<Vec<Vec<u16>>>();
    assert!(matches!(
        classify_csi(&p(&[62, 4]), &b"?".to_vec(), false, 'c'),
        Some(Event::Da1 { ref params }) if params == &[62, 4]
    ));
    assert!(classify_csi(&p(&[62, 4]), &b"?".to_vec(), true, 'c').is_none());
    assert!(classify_csi(&p(&[1]), &b"?>".to_vec(), false, 'c').is_none());
    assert!(matches!(
        classify_csi(&p(&[1, 10, 0]), &b">".to_vec(), false, 'c'),
        Some(Event::Da2 { .. })
    ));
    assert!(matches!(
        classify_csi(&p(&[2026, 2]), &b"?$".to_vec(), false, 'y'),
        Some(Event::ModeReport { mode: 2026, setting: ModeSetting::Reset })
    ));
    assert!(classify_csi(&p(&[2026]), &b"?$".to_vec(), false, 'y').is_none());
    assert!(matches!(
        classify_csi(&p(&[]), &b"?".to_vec(), false, 'u'),
        Some(Event::KittyKeyboard { flags: 0 })
    ));
    assert_eq!(
        dbg(&classify_csi(&p(&[1, 0, 1024]), &b"?".to_vec(), false, 'S')),
        dbg(&Some(Event::XtSmGraphics { item: 1, status: 0, values: vec![1024] }))
    );
    // sub-parameters are flattened in order
    assert_eq!(
        dbg(&classify_csi(&vec![vec![4, 24], vec![80]], &vec![], false, 't')),
        dbg(&Some(Event::WindowOp { op: 4, params: vec![24, 80] }))
    );
    assert!(classify_csi(&p(&[]), &vec![], false, 't').is_none());
    assert!(classify_csi(&p(&[1]), &vec![], false, 'm').is_none());
}

#[test]
fn classify_dcs_replies() {
    assert_eq!(
        dbg(&classify_dcs(&b">".to_vec(), b'|', &vec![], "XTerm(388)".to_string())),
        dbg(&Some(Event::XtVersion { version: "XTerm(388)".to_string() }))
    );
    assert_eq!(
        dbg(&classify_dcs(&b"$".to_vec(), b'r', &vec![1], "0m".to_string())),
        dbg(&Some(Event::Decrqss { valid: true, payload: "0m".to_string() }))
    );
    assert_eq!(
        dbg(&classify_dcs(&b"$".to_vec(), b'r', &vec![0], "".to_string())),
        dbg(&Some(Event::Decrqss { valid: false, payload: "".to_string() }))
    );
    assert_eq!(
        dbg(&classify_dcs(&b"!".to_vec(), b'|', &vec![], "7E565445".to_string())),
        dbg(&Some(Event::Da3 { id: "7E565445".to_string() }))
    );
    assert_eq!(
        dbg(&classify_dcs(&b"+".to_vec(), b'r', &vec![1], "544e=787465726d".to_string())),
        dbg(&Some(Event::XtGetTcap { name: "TN".to_string(), value: Some("xterm".to_string()) }))
    );
    assert_eq!(
        dbg(&classify_dcs(&b"+".to_vec(), b'r', &vec![0], "544e".to_string())),
        dbg(&Some(Event::XtGetTcap { name: "TN".to_string(), value: None }))
    );
    assert!(classify_dcs(&b"+".to_vec(), b'r', &vec![1], "zz=00".to_string()).is_none());
    assert!(classify_dcs(&vec![], b'q', &vec![], "".to_string()).is_none());
}

#[test]
fn classify_osc_replies() {
    let args = |v: &[&[u8]]| v.iter().map(|a| a.to_vec()).collect::<Vec<Vec<u8>>>();
    assert_eq!(
        dbg(&classify_osc(&args(&[b"11", b"rgb:0000/0000/0000"]))),
        dbg(&Some(Event::OscColor {
            index: 11,
            sub_index: None,
            value: "rgb:0000/0000/0000".to_string()
        }))
    );
    assert_eq!(
        dbg(&classify_osc(&args(&[b"4", b"1", b"rgb:cdcd/0000/0000"]))),
        dbg(&Some(Event::OscColor {
            index: 4,
            sub_index: Some("1".to_string()),
            value: "rgb:cdcd/0000/0000".to_string()
        }))
    );
    // invalid UTF-8 is replaced, not dropped
    assert_eq!(
        dbg(&classify_osc(&args(&[b"52", b"c", b"\xff"]))),
        dbg(&Some(Event::OscColor {
            index: 52,
            sub_index: Some("c".to_string()),
            value: "\u{fffd}".to_string()
        }))
    );
    assert!(classify_osc(&args(&[b"11"])).is_none());
    assert!(classify_osc(&args(&[b"x", b"y"])).is_none());
    assert!(classify_osc(&args(&[b"70000", b"y"])).is_none());
}
