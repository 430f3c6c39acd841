//! Geometry probes: window size reports.
use vstd::prelude::*;
use vstd::utf8::encode_utf8;
use crate::parser::{Event, EventView, events_view};
use crate::probe::{
    find_first, lemma_find_first, outcome_view, plain_probe, str_bytes, unknown, Category,
    Interpreter, InterpreterView, Probe, ProbeStatus, ProbeView,
};
use crate::text::{decimal, extend_str, push_decimal, string_of};

verus! {

pub open spec fn is_size_report(op: u16) -> spec_fn(EventView) -> bool {
    |e: EventView| e matches EventView::WindowOp { op: o, params } && o == op && params.len() >= 2
}

/// The text for a size report `CSI op ; a ; b t`: `b cols x a rows` for
/// cells, `bxa px` for pixels.
pub open spec fn size_text(params: Seq<u16>, cells: bool) -> Seq<char> {
    if cells {
        decimal(params[1] as nat) + " cols x "@ + decimal(params[0] as nat) + " rows"@
    } else {
        decimal(params[1] as nat) + "x"@ + decimal(params[0] as nat) + " px"@
    }
}

/// Result of a window size probe: the first report with operation `op`
/// and two values.
pub open spec fn size_outcome(events: Seq<EventView>, op: u16, cells: bool) -> (
    ProbeStatus,
    Option<Seq<char>>,
) {
    match find_first(events, is_size_report(op)) {
        Some(i) => (ProbeStatus::Supported, Some(size_text(events[i]->WindowOp_params, cells))),
        None => unknown(),
    }
}

/// Law: a size report `CSI op ; height ; width t` gives the width first:
/// for cells `width cols x height rows`, for pixels `widthxheight px`, read
/// from the first report for the operation that carries both values; with
/// no such report the result is unknown.
pub proof fn law_size_reading(
    events: Seq<EventView>,
    op: u16,
    cells: bool,
    i: int,
    height: u16,
    width: u16,
    rest: Seq<u16>,
)
    requires
        0 <= i <= events.len(),
        forall|j: int|
            0 <= j < i ==> !(#[trigger] events[j] matches EventView::WindowOp { op: o, params }
                && o == op && params.len() >= 2),
    ensures
        i < events.len() && events[i] == (EventView::WindowOp {
            op,
            params: seq![height, width] + rest,
        }) ==> size_outcome(events, op, cells) == (
            ProbeStatus::Supported,
            Some(
                if cells {
                    decimal(width as nat) + " cols x "@ + decimal(height as nat) + " rows"@
                } else {
                    decimal(width as nat) + "x"@ + decimal(height as nat) + " px"@
                },
            ),
        ),
        i == events.len() ==> size_outcome(events, op, cells) == (
            ProbeStatus::Unknown,
            None::<Seq<char>>,
        ),
{
    assert forall|j: int| 0 <= j < i implies !is_size_report(op)(#[trigger] events[j]) by {
        assert(!(events[j] matches EventView::WindowOp { op: o, params } && o == op && params.len()
            >= 2));
    }
    lemma_find_first(events, is_size_report(op), i);
    let p = seq![height, width] + rest;
    assert(p[0] == height && p[1] == width && p.len() >= 2);
}

/// Reads the replies to a window size probe.
pub fn interpret_size(events: &[Event], op: u16, cells: bool) -> (r: (ProbeStatus, Option<String>))
    ensures
        outcome_view(r) == size_outcome(events_view(events@), op, cells),
{
    let ghost ev = events_view(events@);
    let mut i: usize = 0;
    while i < events.len()
        invariant
            i <= events.len(),
            ev == events_view(events@),
            forall|j: int| 0 <= j < i ==> !is_size_report(op)(#[trigger] ev[j]),
        decreases events.len() - i,
    {
        if let Event::WindowOp { op: o, params } = &events[i] {
            if *o == op && params.len() >= 2 {
                proof {
                    lemma_find_first(ev, is_size_report(op), i as int);
                }
                let mut out: Vec<char> = Vec::new();
                push_decimal(&mut out, params[1] as u64);
                if cells {
                    extend_str(&mut out, " cols x ");
                    push_decimal(&mut out, params[0] as u64);
                    extend_str(&mut out, " rows");
                } else {
                    extend_str(&mut out, "x");
                    push_decimal(&mut out, params[0] as u64);
                    extend_str(&mut out, " px");
                }
                return (ProbeStatus::Supported, Some(string_of(out.as_slice())));
            }
        }
        assert(!is_size_report(op)(ev[i as int]));
        i = i + 1;
    }
    proof {
        lemma_find_first(ev, is_size_report(op), i as int);
    }
    (ProbeStatus::Unknown, None)
}

/// The geometry probes, in report order.
pub open spec fn geometry_probes_spec() -> Seq<ProbeView> {
    seq![
        plain_probe(
            "cell-size-pixels"@,
            Category::Geometry,
            encode_utf8("\x1b[16t"@),
            InterpreterView::WindowSize { op: 6, cells: false },
        ),
        plain_probe(
            "text-area-cells"@,
            Category::Geometry,
            encode_utf8("\x1b[18t"@),
            InterpreterView::WindowSize { op: 8, cells: true },
        ),
        plain_probe(
            "text-area-pixels"@,
            Category::Geometry,
            encode_utf8("\x1b[14t"@),
            InterpreterView::WindowSize { op: 4, cells: false },
        ),
    ]
}

/// The geometry probes: cell size, text area in cells and in pixels.
pub fn probes() -> (v: Vec<Probe>)
    ensures
        crate::probe::probes_view(v@) == geometry_probes_spec(),
{
    let mut v: Vec<Probe> = Vec::new();
    // Response: CSI 6 ; height ; width t
    v.push(
        Probe::new(
            "cell-size-pixels",
            Category::Geometry,
            str_bytes("\x1b[16t"),
            Interpreter::WindowSize { op: 6, cells: false },
        ),
    );
    // Response: CSI 8 ; rows ; cols t
    v.push(
        Probe::new(
            "text-area-cells",
            Category::Geometry,
            str_bytes("\x1b[18t"),
            Interpreter::WindowSize { op: 8, cells: true },
        ),
    );
    // Response: CSI 4 ; height ; width t
    v.push(
        Probe::new(
            "text-area-pixels",
            Category::Geometry,
            str_bytes("\x1b[14t"),
            Interpreter::WindowSize { op: 4, cells: false },
        ),
    );
    assert(crate::probe::probes_view(v@) =~= geometry_probes_spec());
    v
}

} // verus!
