//! Mode probes: DECRQM queries answered by DECRPM reports.
use vstd::prelude::*;
use vstd::utf8::encode_utf8;
use crate::parser::{Event, EventView, ModeSetting, events_view};
use crate::probe::{
    find_first, lemma_find_first, outcome_view, str_bytes, unknown, Category, Interpreter,
    InterpreterView, Probe, ProbeStatus, ProbeView,
};
use crate::text::{decimal, extend_str, push_decimal, string_from, string_of};

verus! {

pub open spec fn is_mode(m: u16) -> spec_fn(EventView) -> bool {
    |e: EventView| e matches EventView::ModeReport { mode, .. } && mode == m
}

/// What a reported mode setting means for the probe.
pub open spec fn setting_outcome(s: ModeSetting) -> (ProbeStatus, Option<Seq<char>>) {
    match s {
        ModeSetting::Enabled => (ProbeStatus::Supported, Some("enabled"@)),
        ModeSetting::Reset => (ProbeStatus::Supported, Some("disabled"@)),
        ModeSetting::PermanentlySet => (ProbeStatus::Supported, Some("enabled (permanent)"@)),
        ModeSetting::PermanentlyReset => (ProbeStatus::Supported, Some("disabled (permanent)"@)),
        ModeSetting::NotRecognized => (ProbeStatus::Unsupported, None),
    }
}

/// Result of the DECRQM probe for `mode`: the first report for that mode
/// decides.
pub open spec fn mode_outcome(events: Seq<EventView>, mode: u16) -> (
    ProbeStatus,
    Option<Seq<char>>,
) {
    match find_first(events, is_mode(mode)) {
        Some(i) => setting_outcome(events[i]->setting),
        None => unknown(),
    }
}

/// Law: a DECRQM probe is decided by the first report for its mode: a mode
/// reported set reads "enabled", reset "disabled", permanently set
/// "enabled (permanent)", permanently reset "disabled (permanent)", all as
/// supported; a mode the terminal does not recognise is unsupported; with
/// no report for the mode the result is unknown.
pub proof fn law_mode_reading(events: Seq<EventView>, mode: u16, i: int)
    requires
        0 <= i <= events.len(),
        forall|j: int|
            0 <= j < i ==> !(#[trigger] events[j] matches EventView::ModeReport { mode: m, .. }
                && m == mode),
    ensures
        i < events.len() && events[i] == (EventView::ModeReport { mode, setting: ModeSetting::Enabled })
            ==> mode_outcome(events, mode) == (ProbeStatus::Supported, Some("enabled"@)),
        i < events.len() && events[i] == (EventView::ModeReport { mode, setting: ModeSetting::Reset })
            ==> mode_outcome(events, mode) == (ProbeStatus::Supported, Some("disabled"@)),
        i < events.len() && events[i] == (EventView::ModeReport {
            mode,
            setting: ModeSetting::PermanentlySet,
        }) ==> mode_outcome(events, mode) == (ProbeStatus::Supported, Some("enabled (permanent)"@)),
        i < events.len() && events[i] == (EventView::ModeReport {
            mode,
            setting: ModeSetting::PermanentlyReset,
        }) ==> mode_outcome(events, mode) == (
            ProbeStatus::Supported,
            Some("disabled (permanent)"@),
        ),
        i < events.len() && events[i] == (EventView::ModeReport {
            mode,
            setting: ModeSetting::NotRecognized,
        }) ==> mode_outcome(events, mode) == (ProbeStatus::Unsupported, None::<Seq<char>>),
        i == events.len() ==> mode_outcome(events, mode) == (
            ProbeStatus::Unknown,
            None::<Seq<char>>,
        ),
{
    assert forall|j: int| 0 <= j < i implies !is_mode(mode)(#[trigger] events[j]) by {
        assert(!(events[j] matches EventView::ModeReport { mode: m, .. } && m == mode));
    }
    lemma_find_first(events, is_mode(mode), i);
}

/// Reads the replies to a DECRQM probe for `mode`.
pub fn interpret_mode(events: &[Event], mode: u16) -> (r: (ProbeStatus, Option<String>))
    ensures
        outcome_view(r) == mode_outcome(events_view(events@), mode),
{
    let ghost ev = events_view(events@);
    let mut i: usize = 0;
    while i < events.len()
        invariant
            i <= events.len(),
            ev == events_view(events@),
            forall|j: int| 0 <= j < i ==> !is_mode(mode)(#[trigger] ev[j]),
        decreases events.len() - i,
    {
        if let Event::ModeReport { mode: m, setting } = &events[i] {
            if *m == mode {
                proof {
                    lemma_find_first(ev, is_mode(mode), i as int);
                }
                return match setting {
                    ModeSetting::Enabled => (ProbeStatus::Supported, Some(string_from("enabled"))),
                    ModeSetting::Reset => (ProbeStatus::Supported, Some(string_from("disabled"))),
                    ModeSetting::PermanentlySet => (
                        ProbeStatus::Supported,
                        Some(string_from("enabled (permanent)")),
                    ),
                    ModeSetting::PermanentlyReset => (
                        ProbeStatus::Supported,
                        Some(string_from("disabled (permanent)")),
                    ),
                    ModeSetting::NotRecognized => (ProbeStatus::Unsupported, None),
                };
            }
        }
        assert(!is_mode(mode)(ev[i as int]));
        i = i + 1;
    }
    proof {
        lemma_find_first(ev, is_mode(mode), i as int);
    }
    (ProbeStatus::Unknown, None)
}

/// Model of the DECRQM probe `name` for `mode`.
pub open spec fn decrqm_probe_view(name: Seq<char>, mode: u16) -> ProbeView {
    ProbeView {
        name,
        label: Some(name + " ("@ + decimal(mode as nat) + ")"@),
        category: Category::Modes,
        query: encode_utf8("\x1b[?"@ + decimal(mode as nat) + "$p"@),
        interpreter: InterpreterView::ModeReport { mode },
        is_sentinel: false,
    }
}

/// A DECRQM probe for `mode`, labelled `name (mode)`.
pub fn decrqm_probe(name: &'static str, mode: u16) -> (p: Probe)
    ensures
        p@ == decrqm_probe_view(name@, mode),
{
    let mut label: Vec<char> = Vec::new();
    extend_str(&mut label, name);
    extend_str(&mut label, " (");
    push_decimal(&mut label, mode as u64);
    extend_str(&mut label, ")");
    let mut query: Vec<char> = Vec::new();
    extend_str(&mut query, "\x1b[?");
    push_decimal(&mut query, mode as u64);
    extend_str(&mut query, "$p");
    let query_text = string_of(query.as_slice());
    Probe {
        name,
        label: Some(string_of(label.as_slice())),
        category: Category::Modes,
        query: str_bytes(query_text.as_str()),
        is_sentinel: false,
        interpreter: Interpreter::ModeReport { mode },
    }
}

/// The mode probes, in report order.
pub open spec fn modes_probes_spec() -> Seq<ProbeView> {
    seq![
        decrqm_probe_view("auto-wrap"@, 7),
        decrqm_probe_view("cursor-visible"@, 25),
        decrqm_probe_view("mouse-x10"@, 9),
        decrqm_probe_view("bracketed-paste"@, 2004),
        decrqm_probe_view("focus-events"@, 1004),
        decrqm_probe_view("mouse-normal"@, 1000),
        decrqm_probe_view("mouse-button"@, 1002),
        decrqm_probe_view("mouse-any"@, 1003),
        decrqm_probe_view("mouse-sgr"@, 1006),
        decrqm_probe_view("mouse-sgr-pixels"@, 1016),
        decrqm_probe_view("alt-screen"@, 1049),
        decrqm_probe_view("synchronized-output"@, 2026),
        decrqm_probe_view("unicode-core"@, 2027),
        decrqm_probe_view("color-scheme-updates"@, 2031),
        decrqm_probe_view("in-band-resize"@, 2048),
    ]
}

/// The mode probes.
pub fn probes() -> (v: Vec<Probe>)
    ensures
        crate::probe::probes_view(v@) == modes_probes_spec(),
{
    let mut v: Vec<Probe> = Vec::new();
    v.push(decrqm_probe("auto-wrap", 7));
    v.push(decrqm_probe("cursor-visible", 25));
    v.push(decrqm_probe("mouse-x10", 9));
    v.push(decrqm_probe("bracketed-paste", 2004));
    v.push(decrqm_probe("focus-events", 1004));
    v.push(decrqm_probe("mouse-normal", 1000));
    v.push(decrqm_probe("mouse-button", 1002));
    v.push(decrqm_probe("mouse-any", 1003));
    v.push(decrqm_probe("mouse-sgr", 1006));
    v.push(decrqm_probe("mouse-sgr-pixels", 1016));
    v.push(decrqm_probe("alt-screen", 1049));
    v.push(decrqm_probe("synchronized-output", 2026));
    v.push(decrqm_probe("unicode-core", 2027));
    v.push(decrqm_probe("color-scheme-updates", 2031));
    v.push(decrqm_probe("in-band-resize", 2048));
    assert(crate::probe::probes_view(v@) =~= modes_probes_spec());
    v
}

} // verus!
