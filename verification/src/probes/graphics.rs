//! Graphics probes: kitty graphics protocol and sixel.
use vstd::prelude::*;
use vstd::utf8::encode_utf8;
use crate::parser::{Event, EventView, events_view};
use crate::probe::{
    find_first, lemma_find_first, outcome_view, plain_probe, str_bytes, unknown, Category,
    Interpreter, InterpreterView, Probe, ProbeStatus, ProbeView,
};
use crate::text::{chars_of, decimal, extend_str, join, join_chars, push_decimal, string_of};

verus! {

pub open spec fn is_kitty_graphics() -> spec_fn(EventView) -> bool {
    |e: EventView| e is KittyGraphics
}

/// Result of the kitty graphics probe: the first graphics reply's payload.
pub open spec fn kitty_graphics_outcome(events: Seq<EventView>) -> (
    ProbeStatus,
    Option<Seq<char>>,
) {
    match find_first(events, is_kitty_graphics()) {
        Some(i) => (ProbeStatus::Supported, Some(events[i]->KittyGraphics_payload)),
        None => unknown(),
    }
}

/// Some DA1 reply lists extension 4 (sixel).
pub open spec fn da1_lists_sixel(events: Seq<EventView>) -> bool {
    exists|i: int| 0 <= i < events.len() && #[trigger] events[i] is Da1 && events[i]->Da1_params.contains(4)
}

/// Color registers from the last successful XTSMGRAPHICS color-register
/// reply that carries a value.
pub open spec fn last_color_registers(events: Seq<EventView>) -> Option<u16>
    decreases events.len(),
{
    if events.len() == 0 {
        None
    } else {
        let e = events.last();
        if e is XtSmGraphics && e->status == 0 && e->item == 2 && e->values.len() > 0 {
            Some(e->values[0])
        } else {
            last_color_registers(events.drop_last())
        }
    }
}

/// Maximum sixel geometry from the last successful XTSMGRAPHICS geometry
/// reply that carries two values.
pub open spec fn last_max_geometry(events: Seq<EventView>) -> Option<(u16, u16)>
    decreases events.len(),
{
    if events.len() == 0 {
        None
    } else {
        let e = events.last();
        if e is XtSmGraphics && e->status == 0 && e->item == 1 && e->values.len() >= 2 {
            Some((e->values[0], e->values[1]))
        } else {
            last_max_geometry(events.drop_last())
        }
    }
}

/// Law: the sixel probe takes the color register count from a successful
/// XTSMGRAPHICS reply for item 2 and the maximum geometry from one for
/// item 1, the latest such reply winning; failed replies and replies for
/// other items leave both unchanged.
pub proof fn law_sixel_sources(events: Seq<EventView>, item: u16, status: u16, values: Seq<u16>)
    ensures
        item == 2 && status == 0 && values.len() > 0 ==> last_color_registers(
            events.push(EventView::XtSmGraphics { item, status, values }),
        ) == Some(values[0]),
        item == 1 && status == 0 && values.len() >= 2 ==> last_max_geometry(
            events.push(EventView::XtSmGraphics { item, status, values }),
        ) == Some((values[0], values[1])),
        (status != 0 || (item != 1 && item != 2)) ==> last_color_registers(
            events.push(EventView::XtSmGraphics { item, status, values }),
        ) == last_color_registers(events) && last_max_geometry(
            events.push(EventView::XtSmGraphics { item, status, values }),
        ) == last_max_geometry(events),
{
    let e = EventView::XtSmGraphics { item, status, values };
    assert(events.push(e).drop_last() =~= events);
    assert(events.push(e).last() == e);
}

/// Law: replies other than XTSMGRAPHICS leave the color register count and
/// the geometry as they were.
pub proof fn law_sixel_other_replies(events: Seq<EventView>, e: EventView)
    requires
        !(e is XtSmGraphics),
    ensures
        last_color_registers(events.push(e)) == last_color_registers(events),
        last_max_geometry(events.push(e)) == last_max_geometry(events),
{
    assert(events.push(e).drop_last() =~= events);
    assert(events.push(e).last() == e);
}

/// Law: the sixel probe is supported exactly when a DA1 reply lists
/// extension 4 or XTSMGRAPHICS reported color registers or a geometry, and
/// it carries a value exactly then.
pub proof fn law_sixel_reading(events: Seq<EventView>)
    ensures
        (sixel_outcome(events).0 == ProbeStatus::Supported) <==> (da1_lists_sixel(events)
            || last_color_registers(events) is Some || last_max_geometry(events) is Some),
        (sixel_outcome(events).1 is Some) <==> (sixel_outcome(events).0 == ProbeStatus::Supported),
        sixel_outcome(events).0 != ProbeStatus::Unsupported,
{
}

/// The parts of the sixel report, in order.
pub open spec fn sixel_parts(da1: bool, colors: Option<u16>, geometry: Option<(u16, u16)>) -> Seq<
    Seq<char>,
> {
    (if da1 {
        seq!["da1-ext-4"@]
    } else {
        Seq::empty()
    }) + (match colors {
        Some(n) => seq!["colors="@ + decimal(n as nat)],
        None => Seq::empty(),
    }) + (match geometry {
        Some((w, h)) => seq!["max="@ + decimal(w as nat) + "x"@ + decimal(h as nat)],
        None => Seq::empty(),
    })
}

/// Result of the sixel probe.
pub open spec fn sixel_outcome(events: Seq<EventView>) -> (ProbeStatus, Option<Seq<char>>) {
    let da1 = da1_lists_sixel(events);
    let colors = last_color_registers(events);
    let geometry = last_max_geometry(events);
    if da1 || colors is Some || geometry is Some {
        (ProbeStatus::Supported, Some(join(sixel_parts(da1, colors, geometry), ", "@)))
    } else {
        unknown()
    }
}

/// Reads the replies to the kitty graphics probe.
pub fn interpret_kitty_graphics(events: &[Event]) -> (r: (ProbeStatus, Option<String>))
    ensures
        outcome_view(r) == kitty_graphics_outcome(events_view(events@)),
{
    let ghost ev = events_view(events@);
    let mut i: usize = 0;
    while i < events.len()
        invariant
            i <= events.len(),
            ev == events_view(events@),
            forall|j: int| 0 <= j < i ==> !is_kitty_graphics()(#[trigger] ev[j]),
        decreases events.len() - i,
    {
        if let Event::KittyGraphics { payload } = &events[i] {
            proof {
                lemma_find_first(ev, is_kitty_graphics(), i as int);
            }
            return (ProbeStatus::Supported, Some(payload.clone()));
        }
        assert(!is_kitty_graphics()(ev[i as int]));
        i = i + 1;
    }
    proof {
        lemma_find_first(ev, is_kitty_graphics(), i as int);
    }
    (ProbeStatus::Unknown, None)
}

/// Whether `v` contains `x`.
fn contains_u16(v: &Vec<u16>, x: u16) -> (r: bool)
    ensures
        r == v@.contains(x),
{
    let mut i: usize = 0;
    while i < v.len()
        invariant
            i <= v.len(),
            forall|k: int| 0 <= k < i ==> v@[k] != x,
        decreases v.len() - i,
    {
        if v[i] == x {
            return true;
        }
        i = i + 1;
    }
    false
}

/// Reads the replies to the sixel probe.
pub fn interpret_sixel(events: &[Event]) -> (r: (ProbeStatus, Option<String>))
    ensures
        outcome_view(r) == sixel_outcome(events_view(events@)),
{
    let ghost ev = events_view(events@);
    let mut da1_sixel = false;
    let mut color_regs: Option<u16> = None;
    let mut max_geo: Option<(u16, u16)> = None;
    let mut i: usize = 0;
    while i < events.len()
        invariant
            i <= events.len(),
            ev == events_view(events@),
            da1_sixel == da1_lists_sixel(ev.take(i as int)),
            color_regs == last_color_registers(ev.take(i as int)),
            max_geo == last_max_geometry(ev.take(i as int)),
        decreases events.len() - i,
    {
        let ghost pre = ev.take(i as int);
        let ghost next = ev.take(i + 1);
        assert(next.drop_last() == pre);
        assert(next.last() == ev[i as int]);
        if let Event::Da1 { params } = &events[i] {
            if contains_u16(params, 4) {
                da1_sixel = true;
            }
        }
        if let Event::XtSmGraphics { item, status, values } = &events[i] {
            if *status == 0 {
                if *item == 2 {
                    if values.len() > 0 {
                        color_regs = Some(values[0]);
                    }
                } else if *item == 1 {
                    if values.len() >= 2 {
                        max_geo = Some((values[0], values[1]));
                    }
                }
            }
        }
        proof {
            if da1_lists_sixel(next) {
                let k = choose|k: int|
                    0 <= k < next.len() && #[trigger] next[k] is Da1 && next[k]->Da1_params.contains(
                        4,
                    );
                if k < i {
                    assert(pre[k] == next[k]);
                }
            }
            if da1_lists_sixel(pre) {
                let k = choose|k: int|
                    0 <= k < pre.len() && #[trigger] pre[k] is Da1 && pre[k]->Da1_params.contains(4);
                assert(pre[k] == next[k]);
            }
        }
        i = i + 1;
    }
    assert(ev.take(events.len() as int) == ev);
    if da1_sixel || color_regs.is_some() || max_geo.is_some() {
        let mut parts: Vec<Vec<char>> = Vec::new();
        if da1_sixel {
            parts.push(chars_of("da1-ext-4"));
        }
        if let Some(regs) = color_regs {
            let mut p: Vec<char> = Vec::new();
            extend_str(&mut p, "colors=");
            push_decimal(&mut p, regs as u64);
            parts.push(p);
        }
        if let Some((w, h)) = max_geo {
            let mut p: Vec<char> = Vec::new();
            extend_str(&mut p, "max=");
            push_decimal(&mut p, w as u64);
            extend_str(&mut p, "x");
            push_decimal(&mut p, h as u64);
            parts.push(p);
        }
        let sep = chars_of(", ");
        let out = join_chars(&parts, sep.as_slice());
        assert(parts@.map_values(|p: Vec<char>| p@) =~= sixel_parts(
            da1_lists_sixel(ev),
            last_color_registers(ev),
            last_max_geometry(ev),
        ));
        (ProbeStatus::Supported, Some(string_of(out.as_slice())))
    } else {
        (ProbeStatus::Unknown, None)
    }
}

/// The graphics probes, in report order.
pub open spec fn graphics_probes_spec() -> Seq<ProbeView> {
    seq![
        plain_probe(
            "kitty-graphics"@,
            Category::Graphics,
            encode_utf8("\x1b_Gi=1,a=q\x1b\\"@),
            InterpreterView::KittyGraphics,
        ),
        plain_probe(
            "sixel"@,
            Category::Graphics,
            encode_utf8("\x1b[?2;1;0S\x1b[?1;1;0S"@),
            InterpreterView::Sixel,
        ),
    ]
}

/// The graphics probes.
pub fn probes() -> (v: Vec<Probe>)
    ensures
        crate::probe::probes_view(v@) == graphics_probes_spec(),
{
    let mut v: Vec<Probe> = Vec::new();
    v.push(
        Probe {
            label: None,
            name: "kitty-graphics",
            category: Category::Graphics,
            query: str_bytes("\x1b_Gi=1,a=q\x1b\\"),
            is_sentinel: false,
            interpreter: Interpreter::KittyGraphics,
        },
    );
    v.push(
        Probe {
            label: None,
            name: "sixel",
            category: Category::Graphics,
            is_sentinel: false,
            // XTSMGRAPHICS: color registers + max geometry
            query: str_bytes("\x1b[?2;1;0S\x1b[?1;1;0S"),
            interpreter: Interpreter::Sixel,
        },
    );
    assert(crate::probe::probes_view(v@) =~= graphics_probes_spec());
    v
}

} // verus!
