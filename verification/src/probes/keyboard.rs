//! Keyboard probes: the kitty keyboard protocol.
use vstd::prelude::*;
use vstd::utf8::encode_utf8;
use crate::parser::{Event, EventView, events_view};
use crate::probe::{
    find_first, lemma_find_first, outcome_view, plain_probe, str_bytes, unknown, Category,
    Interpreter, InterpreterView, Probe, ProbeStatus, ProbeView,
};
use crate::text::{decimal, extend_str, push_decimal, string_of};

verus! {

pub open spec fn is_kitty_keyboard() -> spec_fn(EventView) -> bool {
    |e: EventView| e is KittyKeyboard
}

/// Result of the kitty keyboard probe: the first flags report, as
/// `flags=N`.
pub open spec fn kitty_keyboard_outcome(events: Seq<EventView>) -> (
    ProbeStatus,
    Option<Seq<char>>,
) {
    match find_first(events, is_kitty_keyboard()) {
        Some(i) => (ProbeStatus::Supported, Some("flags="@ + decimal(events[i]->flags as nat))),
        None => unknown(),
    }
}

/// Reads the replies to the kitty keyboard probe.
pub fn interpret_kitty_keyboard(events: &[Event]) -> (r: (ProbeStatus, Option<String>))
    ensures
        outcome_view(r) == kitty_keyboard_outcome(events_view(events@)),
{
    let ghost ev = events_view(events@);
    let mut i: usize = 0;
    while i < events.len()
        invariant
            i <= events.len(),
            ev == events_view(events@),
            forall|j: int| 0 <= j < i ==> !is_kitty_keyboard()(#[trigger] ev[j]),
        decreases events.len() - i,
    {
        if let Event::KittyKeyboard { flags } = &events[i] {
            proof {
                lemma_find_first(ev, is_kitty_keyboard(), i as int);
            }
            let mut out: Vec<char> = Vec::new();
            extend_str(&mut out, "flags=");
            push_decimal(&mut out, *flags as u64);
            return (ProbeStatus::Supported, Some(string_of(out.as_slice())));
        }
        assert(!is_kitty_keyboard()(ev[i as int]));
        i = i + 1;
    }
    proof {
        lemma_find_first(ev, is_kitty_keyboard(), i as int);
    }
    (ProbeStatus::Unknown, None)
}

/// The keyboard probes.
pub open spec fn keyboard_probes_spec() -> Seq<ProbeView> {
    seq![
        plain_probe(
            "kitty-keyboard"@,
            Category::Keyboard,
            encode_utf8("\x1b[?u"@),
            InterpreterView::KittyKeyboard,
        ),
    ]
}

/// The keyboard probes.
pub fn probes() -> (v: Vec<Probe>)
    ensures
        crate::probe::probes_view(v@) == keyboard_probes_spec(),
{
    let mut v: Vec<Probe> = Vec::new();
    v.push(
        Probe {
            label: None,
            name: "kitty-keyboard",
            category: Category::Keyboard,
            query: str_bytes("\x1b[?u"),
            is_sentinel: false,
            interpreter: Interpreter::KittyKeyboard,
        },
    );
    assert(crate::probe::probes_view(v@) =~= keyboard_probes_spec());
    v
}

} // verus!
