//! Incremental parser for a terminal's replies to capability queries.
//!
//! Bytes are fed in whatever chunks the terminal delivers them.  APC strings
//! (kitty graphics replies) are filtered out here, before the VT state
//! machine, which does not report APC payloads; everything else goes through
//! `vte` and the control functions it reports are classified into `Event`s.
use vstd::prelude::*;
use crate::hex;
use crate::text;
use crate::text::{chars_of, decode_lossy, decode_strict, find_char_exec, lossy_text};
use crate::vt;
use crate::vt::{vte_actions, vte_consumed, view_u16s, view_u8s, VteAction, VteActionView};
use vstd::utf8::{decode_utf8, valid_utf8};

verus! {

/// Upper bound on the bytes kept of one DCS or APC payload.
pub const MAX_PAYLOAD_LEN: usize = 64 * 1024;

pub const ESC: u8 = 0x1b;

pub const BACKSLASH: u8 = 0x5c;

pub const UNDERSCORE: u8 = 0x5f;

/// C1 string terminator.
pub const C1_ST: u8 = 0x9c;

/// C1 application program command.
pub const C1_APC: u8 = 0x9f;

pub const QUESTION: u8 = 0x3f;

pub const GREATER: u8 = 0x3e;

pub const EQUALS: u8 = 0x3d;

pub const DOLLAR: u8 = 0x24;

pub const BANG: u8 = 0x21;

pub const PLUS: u8 = 0x2b;

pub const PIPE: u8 = 0x7c;

pub const LOWER_R: u8 = 0x72;

/// The `Pm` value of a DECRPM report.
#[derive(Debug, Clone, Copy, PartialEq, Eq, Structural)]
pub enum ModeSetting {
    NotRecognized,
    Enabled,
    Reset,
    PermanentlySet,
    PermanentlyReset,
}

/// A recognised reply from the terminal.
#[derive(Debug, Clone)]
pub enum Event {
    Da1 { params: Vec<u16> },
    Da2 { params: Vec<u16> },
    Da3 { id: String },
    XtVersion { version: String },
    ModeReport { mode: u16, setting: ModeSetting },
    KittyKeyboard { flags: u16 },
    XtSmGraphics { item: u16, status: u16, values: Vec<u16> },
    WindowOp { op: u16, params: Vec<u16> },
    OscColor { index: u16, sub_index: Option<String>, value: String },
    KittyGraphics { payload: String },
    Decrqss { valid: bool, payload: String },
    XtGetTcap { name: String, value: Option<String> },
}

/// Mathematical model of an `Event`: texts are character sequences.
pub enum EventView {
    Da1 { params: Seq<u16> },
    Da2 { params: Seq<u16> },
    Da3 { id: Seq<char> },
    XtVersion { version: Seq<char> },
    ModeReport { mode: u16, setting: ModeSetting },
    KittyKeyboard { flags: u16 },
    XtSmGraphics { item: u16, status: u16, values: Seq<u16> },
    WindowOp { op: u16, params: Seq<u16> },
    OscColor { index: u16, sub_index: Option<Seq<char>>, value: Seq<char> },
    KittyGraphics { payload: Seq<char> },
    Decrqss { valid: bool, payload: Seq<char> },
    XtGetTcap { name: Seq<char>, value: Option<Seq<char>> },
}

/// Model of an optional text.
pub open spec fn opt_text(o: Option<String>) -> Option<Seq<char>> {
    match o {
        Some(s) => Some(s@),
        None => None,
    }
}

impl View for Event {
    type V = EventView;

    open spec fn view(&self) -> EventView {
        match self {
            Event::Da1 { params } => EventView::Da1 { params: params@ },
            Event::Da2 { params } => EventView::Da2 { params: params@ },
            Event::Da3 { id } => EventView::Da3 { id: id@ },
            Event::XtVersion { version } => EventView::XtVersion { version: version@ },
            Event::ModeReport { mode, setting } => EventView::ModeReport {
                mode: *mode,
                setting: *setting,
            },
            Event::KittyKeyboard { flags } => EventView::KittyKeyboard { flags: *flags },
            Event::XtSmGraphics { item, status, values } => EventView::XtSmGraphics {
                item: *item,
                status: *status,
                values: values@,
            },
            Event::WindowOp { op, params } => EventView::WindowOp { op: *op, params: params@ },
            Event::OscColor { index, sub_index, value } => EventView::OscColor {
                index: *index,
                sub_index: opt_text(*sub_index),
                value: value@,
            },
            Event::KittyGraphics { payload } => EventView::KittyGraphics { payload: payload@ },
            Event::Decrqss { valid, payload } => EventView::Decrqss {
                valid: *valid,
                payload: payload@,
            },
            Event::XtGetTcap { name, value } => EventView::XtGetTcap {
                name: name@,
                value: opt_text(*value),
            },
        }
    }
}

/// Model of an optional event.
pub open spec fn opt_event(o: Option<Event>) -> Option<EventView> {
    match o {
        Some(e) => Some(e@),
        None => None,
    }
}

/// Models of a list of events.
pub open spec fn events_view(v: Seq<Event>) -> Seq<EventView> {
    v.map_values(|e: Event| e@)
}

// ---------------------------------------------------------------------------
// Classification of control functions
// ---------------------------------------------------------------------------

/// All parameters and sub-parameters, in order.
pub open spec fn flatten(ps: Seq<Seq<u16>>) -> Seq<u16>
    decreases ps.len(),
{
    if ps.len() == 0 {
        Seq::empty()
    } else {
        flatten(ps.drop_last()) + ps.last()
    }
}

/// The mode setting that a DECRPM `Pm` value reports.
pub open spec fn mode_setting_of(pm: u16) -> ModeSetting {
    if pm == 1 {
        ModeSetting::Enabled
    } else if pm == 2 {
        ModeSetting::Reset
    } else if pm == 3 {
        ModeSetting::PermanentlySet
    } else if pm == 4 {
        ModeSetting::PermanentlyReset
    } else {
        ModeSetting::NotRecognized
    }
}

/// Law: the DECRPM setting values `Pm` 1 to 4 mean set, reset,
/// permanently set and permanently reset; every other value (0 among them)
/// means the mode is not recognised.
pub proof fn law_decrpm_settings(pm: u16)
    ensures
        pm == 1 ==> mode_setting_of(pm) == ModeSetting::Enabled,
        pm == 2 ==> mode_setting_of(pm) == ModeSetting::Reset,
        pm == 3 ==> mode_setting_of(pm) == ModeSetting::PermanentlySet,
        pm == 4 ==> mode_setting_of(pm) == ModeSetting::PermanentlyReset,
        (pm == 0 || pm > 4) ==> mode_setting_of(pm) == ModeSetting::NotRecognized,
{
}

/// The first parameter, or 0 when there is none.
pub open spec fn first_or_zero(s: Seq<u16>) -> u16 {
    if s.len() > 0 {
        s[0]
    } else {
        0
    }
}

/// The event that a CSI sequence with these (flattened) parameters,
/// intermediates and final character reports, if any.
pub open spec fn csi_event(flat: Seq<u16>, inter: Seq<u8>, ignore: bool, action: char) -> Option<
    EventView,
> {
    if ignore {
        None
    } else if action == 'c' && inter.len() >= 1 && inter[0] == QUESTION && !inter.contains(GREATER)
        && !inter.contains(EQUALS) {
        // DA1: CSI ? Ps... c
        Some(EventView::Da1 { params: flat })
    } else if action == 'c' && inter.len() == 1 && inter[0] == GREATER {
        // DA2: CSI > Ps... c
        Some(EventView::Da2 { params: flat })
    } else if action == 'y' && inter.contains(QUESTION) {
        // DECRPM: CSI ? Ps ; Pm $ y
        if flat.len() >= 2 {
            Some(EventView::ModeReport { mode: flat[0], setting: mode_setting_of(flat[1]) })
        } else {
            None
        }
    } else if action == 'u' && inter.len() == 1 && inter[0] == QUESTION {
        // kitty keyboard: CSI ? flags u
        Some(EventView::KittyKeyboard { flags: first_or_zero(flat) })
    } else if action == 'S' && inter.len() == 1 && inter[0] == QUESTION {
        // XTSMGRAPHICS: CSI ? Pi ; Ps ; Pv... S
        if flat.len() >= 2 {
            Some(
                EventView::XtSmGraphics {
                    item: flat[0],
                    status: flat[1],
                    values: flat.subrange(2, flat.len() as int),
                },
            )
        } else {
            None
        }
    } else if action == 't' && inter.len() == 0 {
        // window operations: CSI Ps ; Ps ; Ps t
        if flat.len() > 0 {
            Some(EventView::WindowOp { op: flat[0], params: flat.drop_first() })
        } else {
            None
        }
    } else {
        None
    }
}

/// Text encoded as hexadecimal UTF-8 bytes, decoded; `None` when it is not
/// hexadecimal or not UTF-8.
pub open spec fn hex_text(s: Seq<char>) -> Option<Seq<char>> {
    match hex::decode_spec(s) {
        Some(b) => if valid_utf8(b) {
            Some(decode_utf8(b))
        } else {
            None
        },
        None => None,
    }
}

/// The event that an XTGETTCAP reply (`DCS Ps + r name=value ST`) reports.
pub open spec fn xtgettcap_event(params: Seq<u16>, payload: Seq<char>) -> Option<EventView> {
    let found = first_or_zero(params) == 1;
    match text::find_char(payload, '=') {
        Some(k) => match hex_text(payload.subrange(0, k)) {
            Some(name) => Some(
                EventView::XtGetTcap {
                    name,
                    value: if found {
                        hex_text(payload.subrange(k + 1, payload.len() as int))
                    } else {
                        None
                    },
                },
            ),
            None => None,
        },
        None => match hex_text(payload) {
            Some(name) => Some(EventView::XtGetTcap { name, value: None }),
            None => None,
        },
    }
}

/// The event that a completed device control string reports, given what
/// its `hook` recorded and its payload text.
pub open spec fn dcs_event(inter: Seq<u8>, action: u8, params: Seq<u16>, payload: Seq<char>) -> Option<
    EventView,
> {
    if inter.len() == 1 && inter[0] == GREATER && action == PIPE {
        // XTVERSION: DCS > | version ST
        Some(EventView::XtVersion { version: payload })
    } else if inter.len() == 1 && inter[0] == DOLLAR && action == LOWER_R {
        // DECRQSS: DCS Ps $ r payload ST
        Some(EventView::Decrqss { valid: first_or_zero(params) == 1, payload })
    } else if inter.len() == 1 && inter[0] == BANG && action == PIPE {
        // DA3: DCS ! | unit-id ST
        Some(EventView::Da3 { id: payload })
    } else if inter.len() == 1 && inter[0] == PLUS && action == LOWER_R {
        xtgettcap_event(params, payload)
    } else {
        None
    }
}

/// The event that an OSC reply reports: a numeric first argument and one
/// or two more arguments.
pub open spec fn osc_event(args: Seq<Seq<u8>>) -> Option<EventView> {
    if args.len() >= 2 && text::parse_dec_u16(args[0]) is Some {
        let index = text::parse_dec_u16(args[0]).unwrap();
        if args.len() >= 3 {
            Some(
                EventView::OscColor {
                    index,
                    sub_index: Some(lossy_text(args[1])),
                    value: lossy_text(args[2]),
                },
            )
        } else {
            Some(EventView::OscColor { index, sub_index: None, value: lossy_text(args[1]) })
        }
    } else {
        None
    }
}

// ---------------------------------------------------------------------------
// State model
// ---------------------------------------------------------------------------

/// Model of the parser's own state (everything but the VT state machine).
pub struct StateModel {
    pub events: Seq<EventView>,
    pub has_da1: bool,
    pub dcs_intermediates: Seq<u8>,
    pub dcs_action: u8,
    pub dcs_params: Seq<u16>,
    pub dcs_payload: Seq<u8>,
    pub esc_pending: bool,
    pub in_apc: bool,
    pub apc_buf: Seq<u8>,
    pub apc_esc_seen: bool,
    pub apc_overflows: nat,
}

/// Model of the whole parser: its own state and what the VT state machine
/// has consumed.
pub struct ParserModel {
    pub state: StateModel,
    pub vte_fed: Seq<u8>,
}

/// The state of a fresh parser.
pub open spec fn initial_model() -> ParserModel {
    ParserModel {
        state: StateModel {
            events: Seq::empty(),
            has_da1: false,
            dcs_intermediates: Seq::empty(),
            dcs_action: 0,
            dcs_params: Seq::empty(),
            dcs_payload: Seq::empty(),
            esc_pending: false,
            in_apc: false,
            apc_buf: Seq::empty(),
            apc_esc_seen: false,
            apc_overflows: 0,
        },
        vte_fed: Seq::empty(),
    }
}

/// Records an event; a DA1 reply also marks the sentinel as seen.
pub open spec fn push_event(s: StateModel, e: EventView) -> StateModel {
    StateModel { events: s.events.push(e), has_da1: s.has_da1 || e is Da1, ..s }
}

/// Records the event `o` if there is one.
pub open spec fn push_opt(s: StateModel, o: Option<EventView>) -> StateModel {
    match o {
        Some(e) => push_event(s, e),
        None => s,
    }
}

/// The effect of one VT callback.
pub open spec fn apply_action(s: StateModel, a: VteActionView) -> StateModel {
    match a {
        VteActionView::Csi { params, intermediates, ignore, action } => push_opt(
            s,
            csi_event(flatten(params), intermediates, ignore, action),
        ),
        VteActionView::Hook { params, intermediates, ignore, action } => StateModel {
            dcs_intermediates: intermediates,
            dcs_action: (action as u32) as u8,
            dcs_params: flatten(params),
            dcs_payload: Seq::empty(),
            ..s
        },
        VteActionView::Put { byte } => if s.dcs_payload.len() < MAX_PAYLOAD_LEN {
            StateModel { dcs_payload: s.dcs_payload.push(byte), ..s }
        } else {
            s
        },
        VteActionView::Unhook => push_opt(
            s,
            dcs_event(s.dcs_intermediates, s.dcs_action, s.dcs_params, lossy_text(s.dcs_payload)),
        ),
        VteActionView::Osc { args, bell_terminated } => push_opt(s, osc_event(args)),
    }
}

/// The effect of a list of VT callbacks, in order.
pub open spec fn apply_actions(s: StateModel, acts: Seq<VteActionView>) -> StateModel
    decreases acts.len(),
{
    if acts.len() == 0 {
        s
    } else {
        apply_action(apply_actions(s, acts.drop_last()), acts.last())
    }
}

/// Passing `chunk` to the VT state machine.
pub open spec fn vte_step(m: ParserModel, chunk: Seq<u8>) -> ParserModel {
    ParserModel {
        state: apply_actions(m.state, vte_actions(m.vte_fed, chunk)),
        vte_fed: m.vte_fed + chunk,
    }
}

/// Start collecting an APC string.
pub open spec fn start_apc(s: StateModel) -> StateModel {
    StateModel { in_apc: true, apc_buf: Seq::empty(), apc_esc_seen: false, ..s }
}

/// A terminated APC string: a kitty graphics reply when its text starts
/// with `G`.
pub open spec fn finish_apc(s: StateModel) -> StateModel {
    let p = lossy_text(s.apc_buf);
    let s2 = if p.len() > 0 && p[0] == 'G' {
        push_event(s, EventView::KittyGraphics { payload: p })
    } else {
        s
    };
    StateModel { in_apc: false, apc_esc_seen: false, ..s2 }
}

/// The effect of one input byte.
pub open spec fn feed_byte(m: ParserModel, b: u8) -> ParserModel {
    let s = m.state;
    if s.in_apc {
        if s.apc_esc_seen {
            if b == BACKSLASH {
                ParserModel { state: finish_apc(s), ..m }
            } else {
                ParserModel {
                    state: StateModel {
                        apc_buf: s.apc_buf.push(ESC).push(b),
                        apc_esc_seen: false,
                        ..s
                    },
                    ..m
                }
            }
        } else if b == ESC {
            ParserModel { state: StateModel { apc_esc_seen: true, ..s }, ..m }
        } else if b == C1_ST {
            ParserModel { state: finish_apc(s), ..m }
        } else if s.apc_buf.len() >= MAX_PAYLOAD_LEN {
            ParserModel {
                state: StateModel {
                    in_apc: false,
                    apc_buf: Seq::empty(),
                    apc_overflows: s.apc_overflows + 1,
                    ..s
                },
                ..m
            }
        } else {
            ParserModel { state: StateModel { apc_buf: s.apc_buf.push(b), ..s }, ..m }
        }
    } else if s.esc_pending {
        let s1 = StateModel { esc_pending: false, ..s };
        if b == UNDERSCORE {
            ParserModel { state: start_apc(s1), ..m }
        } else {
            vte_step(ParserModel { state: s1, ..m }, seq![ESC, b])
        }
    } else if b == ESC {
        ParserModel { state: StateModel { esc_pending: true, ..s }, ..m }
    } else if b == C1_APC {
        ParserModel { state: start_apc(s), ..m }
    } else {
        vte_step(m, seq![b])
    }
}

/// The effect of a sequence of input bytes, in order.
pub open spec fn feed_spec(m: ParserModel, bytes: Seq<u8>) -> ParserModel
    decreases bytes.len(),
{
    if bytes.len() == 0 {
        m
    } else {
        feed_byte(feed_spec(m, bytes.drop_last()), bytes.last())
    }
}

/// Some recorded event is a DA1 reply.
pub open spec fn has_da1_event(events: Seq<EventView>) -> bool {
    exists|i: int| 0 <= i < events.len() && (#[trigger] events[i]) is Da1
}

/// What the parser keeps true between calls.
pub open spec fn state_inv(s: StateModel) -> bool {
    &&& s.dcs_payload.len() <= MAX_PAYLOAD_LEN
    &&& s.has_da1 == has_da1_event(s.events)
    &&& !s.in_apc ==> !s.apc_esc_seen
}

/// Input bytes that discarded or pending APC data account for: every
/// discarded payload took more than `MAX_PAYLOAD_LEN` bytes.
pub open spec fn apc_budget(s: StateModel) -> nat {
    s.apc_overflows * (MAX_PAYLOAD_LEN as nat + 1) + if s.in_apc {
        s.apc_buf.len() + if s.apc_esc_seen {
            1nat
        } else {
            0nat
        }
    } else {
        0nat
    }
}

// ---------------------------------------------------------------------------
// Lemmas
// ---------------------------------------------------------------------------

proof fn lemma_push_event_inv(s: StateModel, e: EventView)
    requires
        state_inv(s),
    ensures
        state_inv(push_event(s, e)),
        apc_budget(push_event(s, e)) == apc_budget(s),
{
    let t = push_event(s, e);
    if has_da1_event(s.events) {
        let i = choose|i: int| 0 <= i < s.events.len() && (#[trigger] s.events[i]) is Da1;
        assert(t.events[i] == s.events[i]);
    }
    if e is Da1 {
        assert(t.events[s.events.len() as int] == e);
    }
    if has_da1_event(t.events) {
        let i = choose|i: int| 0 <= i < t.events.len() && (#[trigger] t.events[i]) is Da1;
        if i < s.events.len() {
            assert(t.events[i] == s.events[i]);
        }
    }
}

proof fn lemma_push_opt_inv(s: StateModel, o: Option<EventView>)
    requires
        state_inv(s),
    ensures
        state_inv(push_opt(s, o)),
        apc_budget(push_opt(s, o)) == apc_budget(s),
        push_opt(s, o).in_apc == s.in_apc,
        push_opt(s, o).apc_buf == s.apc_buf,
        push_opt(s, o).apc_esc_seen == s.apc_esc_seen,
        push_opt(s, o).apc_overflows == s.apc_overflows,
        push_opt(s, o).esc_pending == s.esc_pending,
{
    if let Some(e) = o {
        lemma_push_event_inv(s, e);
    }
}

proof fn lemma_apply_action_inv(s: StateModel, a: VteActionView)
    requires
        state_inv(s),
    ensures
        state_inv(apply_action(s, a)),
        apc_budget(apply_action(s, a)) == apc_budget(s),
        apply_action(s, a).in_apc == s.in_apc,
        apply_action(s, a).esc_pending == s.esc_pending,
{
    match a {
        VteActionView::Csi { params, intermediates, ignore, action } => {
            lemma_push_opt_inv(s, csi_event(flatten(params), intermediates, ignore, action));
        },
        VteActionView::Unhook => {
            lemma_push_opt_inv(
                s,
                dcs_event(
                    s.dcs_intermediates,
                    s.dcs_action,
                    s.dcs_params,
                    lossy_text(s.dcs_payload),
                ),
            );
        },
        VteActionView::Osc { args, bell_terminated } => {
            lemma_push_opt_inv(s, osc_event(args));
        },
        _ => {},
    }
}

proof fn lemma_apply_actions_inv(s: StateModel, acts: Seq<VteActionView>)
    requires
        state_inv(s),
    ensures
        state_inv(apply_actions(s, acts)),
        apc_budget(apply_actions(s, acts)) == apc_budget(s),
        apply_actions(s, acts).in_apc == s.in_apc,
        apply_actions(s, acts).esc_pending == s.esc_pending,
    decreases acts.len(),
{
    if acts.len() > 0 {
        lemma_apply_actions_inv(s, acts.drop_last());
        lemma_apply_action_inv(apply_actions(s, acts.drop_last()), acts.last());
    }
}

proof fn lemma_finish_apc_inv(s: StateModel)
    requires
        state_inv(s),
        s.in_apc,
    ensures
        state_inv(finish_apc(s)),
        apc_budget(finish_apc(s)) <= apc_budget(s),
{
    let p = lossy_text(s.apc_buf);
    if p.len() > 0 && p[0] == 'G' {
        lemma_push_event_inv(s, EventView::KittyGraphics { payload: p });
    }
}

/// One input byte keeps the invariant and accounts for at most one byte of
/// APC budget.
proof fn lemma_feed_byte_inv(m: ParserModel, b: u8)
    requires
        state_inv(m.state),
    ensures
        state_inv(feed_byte(m, b).state),
        apc_budget(feed_byte(m, b).state) <= apc_budget(m.state) + 1,
{
    let s = m.state;
    let t = feed_byte(m, b).state;
    if s.in_apc {
        if s.apc_esc_seen {
            if b == BACKSLASH {
                lemma_finish_apc_inv(s);
            } else {
                assert(t.events == s.events);
            }
        } else if b == ESC {
            assert(t.events == s.events);
        } else if b == C1_ST {
            lemma_finish_apc_inv(s);
        } else if s.apc_buf.len() >= MAX_PAYLOAD_LEN {
            assert(t.events == s.events);
            assert(apc_budget(t) == (s.apc_overflows + 1) * (MAX_PAYLOAD_LEN as nat + 1));
            assert((s.apc_overflows + 1) * (MAX_PAYLOAD_LEN as nat + 1) == s.apc_overflows * (
            MAX_PAYLOAD_LEN as nat + 1) + MAX_PAYLOAD_LEN as nat + 1) by (nonlinear_arith);
        } else {
            assert(t.events == s.events);
        }
    } else if s.esc_pending {
        let s1 = StateModel { esc_pending: false, ..s };
        if b != UNDERSCORE {
            assert(state_inv(s1));
            lemma_apply_actions_inv(s1, vte_actions(m.vte_fed, seq![ESC, b]));
        } else {
            assert(t.events == s.events);
        }
    } else if b == ESC || b == C1_APC {
        assert(t.events == s.events);
    } else {
        lemma_apply_actions_inv(s, vte_actions(m.vte_fed, seq![b]));
    }
}

/// Feeding keeps the invariant; the APC budget grows by at most the number
/// of bytes fed.
pub proof fn lemma_feed_spec_inv(m: ParserModel, bytes: Seq<u8>)
    requires
        state_inv(m.state),
    ensures
        state_inv(feed_spec(m, bytes).state),
        apc_budget(feed_spec(m, bytes).state) <= apc_budget(m.state) + bytes.len(),
    decreases bytes.len(),
{
    if bytes.len() > 0 {
        lemma_feed_spec_inv(m, bytes.drop_last());
        lemma_feed_byte_inv(feed_spec(m, bytes.drop_last()), bytes.last());
    }
}

/// Law: the parser's result does not depend on how the input was split into
/// reads: feeding `a` and then `b` is feeding `a + b`.
pub proof fn law_feed_chunking(m: ParserModel, a: Seq<u8>, b: Seq<u8>)
    ensures
        feed_spec(feed_spec(m, a), b) == feed_spec(m, a + b),
    decreases b.len(),
{
    if b.len() == 0 {
        assert(a + b == a);
    } else {
        law_feed_chunking(m, a, b.drop_last());
        assert((a + b).drop_last() == a + b.drop_last());
        assert((a + b).last() == b.last());
    }
}

proof fn lemma_apply_action_events_grow(s: StateModel, a: VteActionView)
    ensures
        apply_action(s, a).events.len() >= s.events.len(),
        apply_action(s, a).events.subrange(0, s.events.len() as int) == s.events,
{
    let t = apply_action(s, a);
    assert(t.events.subrange(0, s.events.len() as int) =~= s.events);
}

proof fn lemma_apply_actions_events_grow(s: StateModel, acts: Seq<VteActionView>)
    ensures
        apply_actions(s, acts).events.len() >= s.events.len(),
        apply_actions(s, acts).events.subrange(0, s.events.len() as int) == s.events,
    decreases acts.len(),
{
    if acts.len() > 0 {
        let mid = apply_actions(s, acts.drop_last());
        lemma_apply_actions_events_grow(s, acts.drop_last());
        lemma_apply_action_events_grow(mid, acts.last());
        let t = apply_action(mid, acts.last());
        assert(t.events.subrange(0, s.events.len() as int) =~= mid.events.subrange(
            0,
            s.events.len() as int,
        ));
    }
}

proof fn lemma_feed_byte_events_grow(m: ParserModel, b: u8)
    ensures
        feed_byte(m, b).state.events.len() >= m.state.events.len(),
        feed_byte(m, b).state.events.subrange(0, m.state.events.len() as int) == m.state.events,
{
    let s = m.state;
    let t = feed_byte(m, b).state;
    if !s.in_apc && s.esc_pending && b != UNDERSCORE {
        let s1 = StateModel { esc_pending: false, ..s };
        lemma_apply_actions_events_grow(s1, vte_actions(m.vte_fed, seq![ESC, b]));
    } else if !s.in_apc && !s.esc_pending && b != ESC && b != C1_APC {
        lemma_apply_actions_events_grow(s, vte_actions(m.vte_fed, seq![b]));
    } else {
        assert(t.events.subrange(0, s.events.len() as int) =~= s.events);
    }
}

/// Law: events are only ever appended; feeding never changes or drops an
/// event that was already reported.
pub proof fn law_events_append_only(m: ParserModel, bytes: Seq<u8>)
    ensures
        feed_spec(m, bytes).state.events.len() >= m.state.events.len(),
        feed_spec(m, bytes).state.events.subrange(0, m.state.events.len() as int)
            == m.state.events,
    decreases bytes.len(),
{
    if bytes.len() > 0 {
        let mid = feed_spec(m, bytes.drop_last());
        law_events_append_only(m, bytes.drop_last());
        lemma_feed_byte_events_grow(mid, bytes.last());
        let t = feed_byte(mid, bytes.last()).state;
        assert(t.events.subrange(0, m.state.events.len() as int) =~= mid.state.events.subrange(
            0,
            m.state.events.len() as int,
        ));
    }
}

proof fn lemma_apply_actions_keep_overflows(s: StateModel, acts: Seq<VteActionView>)
    ensures
        apply_actions(s, acts).apc_overflows == s.apc_overflows,
    decreases acts.len(),
{
    if acts.len() > 0 {
        lemma_apply_actions_keep_overflows(s, acts.drop_last());
    }
}

proof fn lemma_feed_byte_overflows(m: ParserModel, b: u8)
    ensures
        feed_byte(m, b).state.apc_overflows >= m.state.apc_overflows,
{
    let s = m.state;
    if !s.in_apc && s.esc_pending && b != UNDERSCORE {
        let s1 = StateModel { esc_pending: false, ..s };
        lemma_apply_actions_keep_overflows(s1, vte_actions(m.vte_fed, seq![ESC, b]));
    } else if !s.in_apc && !s.esc_pending && b != ESC && b != C1_APC {
        lemma_apply_actions_keep_overflows(s, vte_actions(m.vte_fed, seq![b]));
    }
}

/// Law: the count of discarded APC payloads never goes down; feeding more
/// bytes can only add to it.
pub proof fn law_apc_overflows_grow(m: ParserModel, bytes: Seq<u8>)
    ensures
        feed_spec(m, bytes).state.apc_overflows >= m.state.apc_overflows,
    decreases bytes.len(),
{
    if bytes.len() > 0 {
        law_apc_overflows_grow(m, bytes.drop_last());
        lemma_feed_byte_overflows(feed_spec(m, bytes.drop_last()), bytes.last());
    }
}

// ---------------------------------------------------------------------------
// Executable classification
// ---------------------------------------------------------------------------

/// All parameters and sub-parameters, in order.
fn flatten_params(ps: &Vec<Vec<u16>>) -> (r: Vec<u16>)
    ensures
        r@ == flatten(view_u16s(*ps)),
{
    let ghost views = view_u16s(*ps);
    let mut out: Vec<u16> = Vec::new();
    let mut i: usize = 0;
    while i < ps.len()
        invariant
            i <= ps.len(),
            views == view_u16s(*ps),
            out@ == flatten(views.take(i as int)),
        decreases ps.len() - i,
    {
        let sub = &ps[i];
        let mut j: usize = 0;
        let ghost before = out@;
        while j < sub.len()
            invariant
                j <= sub.len(),
                out@ == before + sub@.subrange(0, j as int),
            decreases sub.len() - j,
        {
            out.push(sub[j]);
            j = j + 1;
            assert(sub@.subrange(0, j as int) == sub@.subrange(0, j - 1).push(sub@[j - 1]));
        }
        proof {
            assert(sub@.subrange(0, sub@.len() as int) == sub@);
            assert(views.take(i + 1).drop_last() == views.take(i as int));
            assert(views.take(i + 1).last() == views[i as int]);
        }
        i = i + 1;
    }
    assert(views.take(ps.len() as int) == views);
    out
}

/// Whether `v` contains `b`.
fn contains_byte(v: &Vec<u8>, b: u8) -> (r: bool)
    ensures
        r == v@.contains(b),
{
    let mut i: usize = 0;
    while i < v.len()
        invariant
            i <= v.len(),
            forall|k: int| 0 <= k < i ==> v@[k] != b,
        decreases v.len() - i,
    {
        if v[i] == b {
            return true;
        }
        i = i + 1;
    }
    false
}

/// The mode setting for a DECRPM `Pm` value.
fn mode_setting(pm: u16) -> (r: ModeSetting)
    ensures
        r == mode_setting_of(pm),
{
    match pm {
        0 => ModeSetting::NotRecognized,
        1 => ModeSetting::Enabled,
        2 => ModeSetting::Reset,
        3 => ModeSetting::PermanentlySet,
        4 => ModeSetting::PermanentlyReset,
        _ => ModeSetting::NotRecognized,
    }
}

/// The tail of `v` from index `from`.
fn tail_u16(v: &Vec<u16>, from: usize) -> (r: Vec<u16>)
    requires
        from <= v.len(),
    ensures
        r@ == v@.subrange(from as int, v@.len() as int),
{
    let mut r: Vec<u16> = Vec::new();
    let mut k: usize = from;
    while k < v.len()
        invariant
            from <= k <= v.len(),
            r@ == v@.subrange(from as int, k as int),
        decreases v.len() - k,
    {
        r.push(v[k]);
        k = k + 1;
        assert(v@.subrange(from as int, k as int) == v@.subrange(from as int, k - 1).push(
            v@[k - 1],
        ));
    }
    r
}

/// The event a CSI sequence with flattened parameters reports, if any.
fn csi_event_exec(flat: Vec<u16>, inter: &Vec<u8>, ignore: bool, action: char) -> (r: Option<
    Event,
>)
    ensures
        opt_event(r) == csi_event(flat@, inter@, ignore, action),
{
    if ignore {
        return None;
    }
    let n = inter.len();
    if action == 'c' && n >= 1 && inter[0] == QUESTION && !contains_byte(inter, GREATER)
        && !contains_byte(inter, EQUALS) {
        Some(Event::Da1 { params: flat })
    } else if action == 'c' && n == 1 && inter[0] == GREATER {
        Some(Event::Da2 { params: flat })
    } else if action == 'y' && contains_byte(inter, QUESTION) {
        if flat.len() >= 2 {
            let mode = flat[0];
            let setting = mode_setting(flat[1]);
            Some(Event::ModeReport { mode, setting })
        } else {
            None
        }
    } else if action == 'u' && n == 1 && inter[0] == QUESTION {
        let flags = if flat.len() > 0 {
            flat[0]
        } else {
            0
        };
        Some(Event::KittyKeyboard { flags })
    } else if action == 'S' && n == 1 && inter[0] == QUESTION {
        if flat.len() >= 2 {
            let item = flat[0];
            let status = flat[1];
            let values = tail_u16(&flat, 2);
            Some(Event::XtSmGraphics { item, status, values })
        } else {
            None
        }
    } else if action == 't' && n == 0 {
        if flat.len() > 0 {
            let op = flat[0];
            let params = tail_u16(&flat, 1);
            assert(flat@.subrange(1, flat@.len() as int) == flat@.drop_first());
            Some(Event::WindowOp { op, params })
        } else {
            None
        }
    } else {
        None
    }
}

/// The reply that a CSI dispatch of the VT state machine reports, if any:
/// DA1, DA2, DECRPM, kitty keyboard flags, XTSMGRAPHICS or a window
/// operation.
pub fn classify_csi(params: &Vec<Vec<u16>>, intermediates: &Vec<u8>, ignore: bool, action: char) -> (r:
    Option<Event>)
    ensures
        opt_event(r) == csi_event(flatten(view_u16s(*params)), intermediates@, ignore, action),
{
    if ignore {
        return None;
    }
    let flat = flatten_params(params);
    csi_event_exec(flat, intermediates, ignore, action)
}

/// Text encoded as hexadecimal UTF-8, decoded.
fn hex_decode(s: &[char]) -> (r: Option<String>)
    ensures
        opt_text(r) == hex_text(s@),
{
    match hex::decode_chars(s) {
        Some(bytes) => decode_strict(bytes),
        None => None,
    }
}

/// The event an XTGETTCAP reply reports, if any.
fn xtgettcap_event_exec(params: &Vec<u16>, payload: &String) -> (r: Option<Event>)
    ensures
        opt_event(r) == xtgettcap_event(params@, payload@),
{
    let found = (if params.len() > 0 {
        params[0]
    } else {
        0
    }) == 1;
    let cs = chars_of(payload.as_str());
    match find_char_exec(cs.as_slice(), '=') {
        Some(k) => {
            assert(k < cs.len());
            let name_hex = text::slice_chars(cs.as_slice(), 0, k);
            let value_hex = text::slice_chars(cs.as_slice(), k + 1, cs.len());
            match hex_decode(name_hex.as_slice()) {
                Some(name) => {
                    let value = if found {
                        hex_decode(value_hex.as_slice())
                    } else {
                        None
                    };
                    Some(Event::XtGetTcap { name, value })
                },
                None => None,
            }
        },
        None => match hex_decode(cs.as_slice()) {
            Some(name) => Some(Event::XtGetTcap { name, value: None }),
            None => None,
        },
    }
}

/// The reply that a completed device control string reports, if any:
/// XTVERSION, DECRQSS, DA3 or XTGETTCAP; `intermediates`, `action` and
/// `params` are what its `hook` carried, `payload` its data as text.
pub fn classify_dcs(inter: &Vec<u8>, action: u8, params: &Vec<u16>, payload: String) -> (r: Option<
    Event,
>)
    ensures
        opt_event(r) == dcs_event(inter@, action, params@, payload@),
{
    let single = inter.len() == 1;
    if single && inter[0] == GREATER && action == PIPE {
        Some(Event::XtVersion { version: payload })
    } else if single && inter[0] == DOLLAR && action == LOWER_R {
        let valid = (if params.len() > 0 {
            params[0]
        } else {
            0
        }) == 1;
        Some(Event::Decrqss { valid, payload })
    } else if single && inter[0] == BANG && action == PIPE {
        Some(Event::Da3 { id: payload })
    } else if single && inter[0] == PLUS && action == LOWER_R {
        xtgettcap_event_exec(params, &payload)
    } else {
        None
    }
}

/// The reply that an operating system command reports, if any: a numeric
/// first argument (the color index) and a value, optionally preceded by a
/// sub-index.
pub fn classify_osc(args: &Vec<Vec<u8>>) -> (r: Option<Event>)
    ensures
        opt_event(r) == osc_event(view_u8s(*args)),
{
    if args.len() < 2 {
        return None;
    }
    match text::parse_dec_u16_exec(args[0].as_slice()) {
        Some(index) => {
            if args.len() >= 3 {
                let sub_index = decode_lossy(args[1].as_slice());
                let value = decode_lossy(args[2].as_slice());
                Some(Event::OscColor { index, sub_index: Some(sub_index), value })
            } else {
                let value = decode_lossy(args[1].as_slice());
                Some(Event::OscColor { index, sub_index: None, value })
            }
        },
        None => None,
    }
}

// ---------------------------------------------------------------------------
// The parser
// ---------------------------------------------------------------------------

struct ParserState {
    events: Vec<Event>,
    raw_bytes: Vec<u8>,
    has_da1: bool,
    // DCS accumulation
    dcs_intermediates: Vec<u8>,
    dcs_action: u8,
    dcs_params: Vec<u16>,
    dcs_payload: Vec<u8>,
    // APC pre-filter
    esc_pending: bool,
    in_apc: bool,
    apc_buf: Vec<u8>,
    apc_esc_seen: bool,
    apc_overflows: usize,
}

impl ParserState {
    spec fn model(&self) -> StateModel {
        StateModel {
            events: events_view(self.events@),
            has_da1: self.has_da1,
            dcs_intermediates: self.dcs_intermediates@,
            dcs_action: self.dcs_action,
            dcs_params: self.dcs_params@,
            dcs_payload: self.dcs_payload@,
            esc_pending: self.esc_pending,
            in_apc: self.in_apc,
            apc_buf: self.apc_buf@,
            apc_esc_seen: self.apc_esc_seen,
            apc_overflows: self.apc_overflows as nat,
        }
    }

    /// Records `o` if it is an event.
    fn push_opt(&mut self, o: Option<Event>)
        ensures
            final(self).model() == push_opt(old(self).model(), opt_event(o)),
            final(self).raw_bytes@ == old(self).raw_bytes@,
    {
        if let Some(e) = o {
            let is_da1 = matches!(e, Event::Da1 { .. });
            self.events.push(e);
            if is_da1 {
                self.has_da1 = true;
            }
            assert(events_view(self.events@) =~= events_view(old(self).events@).push(e@));
        }
    }

    fn csi_dispatch(&mut self, params: &Vec<Vec<u16>>, intermediates: &Vec<u8>, ignore: bool, action: char)
        ensures
            final(self).model() == push_opt(
                old(self).model(),
                csi_event(flatten(view_u16s(*params)), intermediates@, ignore, action),
            ),
            final(self).raw_bytes@ == old(self).raw_bytes@,
    {
        let e = classify_csi(params, intermediates, ignore, action);
        self.push_opt(e);
    }

    fn hook(&mut self, params: &Vec<Vec<u16>>, intermediates: &Vec<u8>, action: char)
        ensures
            final(self).model() == (StateModel {
                dcs_intermediates: intermediates@,
                dcs_action: (action as u32) as u8,
                dcs_params: flatten(view_u16s(*params)),
                dcs_payload: Seq::empty(),
                ..old(self).model()
            }),
            final(self).raw_bytes@ == old(self).raw_bytes@,
    {
        self.dcs_intermediates = intermediates.clone();
        self.dcs_action = (action as u32) as u8;
        self.dcs_params = flatten_params(params);
        self.dcs_payload.clear();
    }

    fn put(&mut self, byte: u8)
        ensures
            final(self).model() == apply_action(old(self).model(), VteActionView::Put { byte }),
            final(self).raw_bytes@ == old(self).raw_bytes@,
    {
        if self.dcs_payload.len() < MAX_PAYLOAD_LEN {
            self.dcs_payload.push(byte);
        }
    }

    fn unhook(&mut self)
        ensures
            final(self).model() == apply_action(old(self).model(), VteActionView::Unhook),
            final(self).raw_bytes@ == old(self).raw_bytes@,
    {
        let payload = decode_lossy(self.dcs_payload.as_slice());
        let e = classify_dcs(&self.dcs_intermediates, self.dcs_action, &self.dcs_params, payload);
        self.push_opt(e);
    }

    fn osc_dispatch(&mut self, args: &Vec<Vec<u8>>)
        ensures
            final(self).model() == push_opt(old(self).model(), osc_event(view_u8s(*args))),
            final(self).raw_bytes@ == old(self).raw_bytes@,
    {
        let e = classify_osc(args);
        self.push_opt(e);
    }

    /// Applies one VT callback.
    fn apply(&mut self, action: &VteAction)
        ensures
            final(self).model() == apply_action(old(self).model(), action@),
            final(self).raw_bytes@ == old(self).raw_bytes@,
    {
        match action {
            VteAction::Csi { params, intermediates, ignore, action } => {
                self.csi_dispatch(params, intermediates, *ignore, *action);
            },
            VteAction::Hook { params, intermediates, ignore, action } => {
                self.hook(params, intermediates, *action);
            },
            VteAction::Put { byte } => {
                self.put(*byte);
            },
            VteAction::Unhook => {
                self.unhook();
            },
            VteAction::Osc { args, bell_terminated } => {
                self.osc_dispatch(args);
            },
        }
    }

    /// Ends the APC string being collected.
    fn finish_apc(&mut self)
        ensures
            final(self).model() == finish_apc(old(self).model()),
            final(self).raw_bytes@ == old(self).raw_bytes@,
    {
        let payload = decode_lossy(self.apc_buf.as_slice());
        let starts_with_g = !payload.as_str().is_empty() && payload.as_str().get_char(0) == 'G';
        if starts_with_g {
            self.push_opt(Some(Event::KittyGraphics { payload }));
        }
        self.in_apc = false;
        self.apc_esc_seen = false;
    }

    /// Starts collecting an APC string.
    fn start_apc(&mut self)
        ensures
            final(self).model() == start_apc(old(self).model()),
            final(self).raw_bytes@ == old(self).raw_bytes@,
    {
        self.in_apc = true;
        self.apc_buf.clear();
        self.apc_esc_seen = false;
    }
}

/// Parser for a terminal's replies.  Feed it the bytes read back from the
/// terminal; it collects the replies it recognises as `Event`s.
pub struct ResponseParser {
    vte: vte::Parser,
    state: ParserState,
}

impl ResponseParser {
    /// Model of the parser's state.
    pub closed spec fn model(&self) -> ParserModel {
        ParserModel { state: self.state.model(), vte_fed: vte_consumed(self.vte) }
    }

    /// Every byte fed so far, in order.
    pub closed spec fn raw(&self) -> Seq<u8> {
        self.state.raw_bytes@
    }

    /// Well-formedness: the state invariant holds and discarded APC data is
    /// accounted for by the bytes fed.
    pub closed spec fn wf(&self) -> bool {
        &&& state_inv(self.state.model())
        &&& apc_budget(self.state.model()) <= self.state.raw_bytes@.len()
    }

    /// A parser that has seen nothing.
    pub fn new() -> (p: Self)
        ensures
            p.wf(),
            p.model() == initial_model(),
            p.raw() == Seq::<u8>::empty(),
    {
        let p = ResponseParser {
            vte: vt::vte_new(),
            state: ParserState {
                events: Vec::new(),
                raw_bytes: Vec::new(),
                has_da1: false,
                dcs_intermediates: Vec::new(),
                dcs_action: 0,
                dcs_params: Vec::new(),
                dcs_payload: Vec::new(),
                esc_pending: false,
                in_apc: false,
                apc_buf: Vec::new(),
                apc_esc_seen: false,
                apc_overflows: 0,
            },
        };
        assert(p.state.model().events =~= Seq::<EventView>::empty());
        p
    }

    /// Passes `chunk` to the VT state machine and applies its callbacks.
    fn run_vte(&mut self, chunk: &[u8])
        ensures
            final(self).model() == vte_step(old(self).model(), chunk@),
            final(self).raw() == old(self).raw(),
    {
        let actions = vt::vte_advance(&mut self.vte, chunk);
        let ghost acts = actions@.map_values(|a: VteAction| a@);
        let ghost s0 = old(self).state.model();
        let mut i: usize = 0;
        while i < actions.len()
            invariant
                i <= actions.len(),
                acts == actions@.map_values(|a: VteAction| a@),
                acts == vte_actions(vte_consumed(old(self).vte), chunk@),
                s0 == old(self).state.model(),
                vte_consumed(self.vte) == vte_consumed(old(self).vte) + chunk@,
                self.state.model() == apply_actions(s0, acts.take(i as int)),
                self.state.raw_bytes@ == old(self).state.raw_bytes@,
            decreases actions.len() - i,
        {
            self.state.apply(&actions[i]);
            proof {
                assert(acts.take(i + 1).drop_last() == acts.take(i as int));
                assert(acts.take(i + 1).last() == acts[i as int]);
            }
            i = i + 1;
        }
        assert(acts.take(actions.len() as int) == acts);
    }

    /// Processes one input byte.
    fn step(&mut self, byte: u8)
        requires
            apc_budget(old(self).state.model()) < usize::MAX,
        ensures
            final(self).model() == feed_byte(old(self).model(), byte),
            final(self).raw() == old(self).raw(),
    {
        if self.state.in_apc {
            if self.state.apc_esc_seen {
                if byte == BACKSLASH {
                    // ST received, APC complete
                    self.state.finish_apc();
                } else {
                    self.state.apc_buf.push(ESC);
                    self.state.apc_buf.push(byte);
                    self.state.apc_esc_seen = false;
                }
            } else if byte == ESC {
                self.state.apc_esc_seen = true;
            } else if byte == C1_ST {
                self.state.finish_apc();
            } else if self.state.apc_buf.len() >= MAX_PAYLOAD_LEN {
                assert(self.state.apc_overflows as nat * (MAX_PAYLOAD_LEN as nat + 1)
                    >= self.state.apc_overflows as nat) by (nonlinear_arith);
                self.state.in_apc = false;
                self.state.apc_buf.clear();
                self.state.apc_overflows = self.state.apc_overflows + 1;
            } else {
                self.state.apc_buf.push(byte);
            }
        } else if self.state.esc_pending {
            self.state.esc_pending = false;
            if byte == UNDERSCORE {
                // ESC _ starts an APC string
                self.state.start_apc();
            } else {
                // not an APC: the VT state machine gets both ESC and the byte
                let chunk = [ESC, byte];
                assert(chunk@ =~= seq![ESC, byte]);
                self.run_vte(&chunk);
            }
        } else if byte == ESC {
            self.state.esc_pending = true;
        } else if byte == C1_APC {
            self.state.start_apc();
        } else {
            let chunk = [byte];
            assert(chunk@ =~= seq![byte]);
            self.run_vte(&chunk);
        }
    }

    /// Feeds bytes read from the terminal.
    pub fn feed(&mut self, bytes: &[u8])
        requires
            old(self).wf(),
        ensures
            final(self).wf(),
            final(self).raw() == old(self).raw() + bytes@,
            final(self).model() == feed_spec(old(self).model(), bytes@),
    {
        self.state.raw_bytes.extend_from_slice(bytes);
        let total = self.state.raw_bytes.len();
        let ghost m0 = old(self).model();
        let mut i: usize = 0;
        while i < bytes.len()
            invariant
                i <= bytes.len(),
                m0 == old(self).model(),
                state_inv(m0.state),
                apc_budget(m0.state) <= old(self).raw().len(),
                self.raw() == old(self).raw() + bytes@,
                total == self.raw().len(),
                self.model() == feed_spec(m0, bytes@.take(i as int)),
            decreases bytes.len() - i,
        {
            proof {
                lemma_feed_spec_inv(m0, bytes@.take(i as int));
            }
            self.step(bytes[i]);
            proof {
                assert(bytes@.take(i + 1).drop_last() == bytes@.take(i as int));
                assert(bytes@.take(i + 1).last() == bytes@[i as int]);
            }
            i = i + 1;
        }
        proof {
            assert(bytes@.take(bytes.len() as int) == bytes@);
            lemma_feed_spec_inv(m0, bytes@);
        }
    }

    /// The replies recognised so far, in the order they arrived.
    pub fn events(&self) -> (r: &[Event])
        ensures
            events_view(r@) == self.model().state.events,
    {
        self.state.events.as_slice()
    }

    /// Whether the DA1 reply (the sentinel) has arrived.
    pub fn has_da1(&self) -> (r: bool)
        ensures
            r == self.model().state.has_da1,
            self.wf() ==> (r <==> has_da1_event(self.model().state.events)),
    {
        self.state.has_da1
    }

    /// Every byte fed so far.
    pub fn raw_bytes(&self) -> (r: &[u8])
        ensures
            r@ == self.raw(),
    {
        self.state.raw_bytes.as_slice()
    }

    /// How many APC payloads were discarded for exceeding `MAX_PAYLOAD_LEN`.
    pub fn apc_overflows(&self) -> (r: usize)
        ensures
            r == self.model().state.apc_overflows,
            self.wf() ==> r * (MAX_PAYLOAD_LEN + 1) <= self.raw().len(),
    {
        self.state.apc_overflows
    }
}

impl Default for ResponseParser {
    fn default() -> (p: Self)
        ensures
            p.wf(),
            p.model() == initial_model(),
            p.raw() == Seq::<u8>::empty(),
    {
        Self::new()
    }
}

} // verus!
