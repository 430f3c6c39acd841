//! Identity probes: device attributes, XTVERSION and XTGETTCAP.
use vstd::prelude::*;
use vstd::string::StringSliceAdditionalSpecFns;
use vstd::utf8::{decode_utf8, valid_utf8};
use crate::hex;
use crate::parser::{Event, EventView, events_view, opt_text};
use crate::probe::{
    find_first, lemma_find_first, outcome_view, plain_probe, str_bytes, unknown, Category,
    Interpreter, InterpreterView, Probe, ProbeStatus, ProbeView,
};
use crate::text::{
    chars_eq, chars_of, decimal, decimal_chars, decode_strict, extend_chars, extend_str,
    join, join_chars, push_decimal, string_of,
};

verus! {

/// Optional static text, as characters.
pub open spec fn opt_str(o: Option<&'static str>) -> Option<Seq<char>> {
    match o {
        Some(s) => Some(s@),
        None => None,
    }
}

/// Conformance level named by the first DA1 parameter.
pub open spec fn da1_conformance_name(param: u16) -> Option<Seq<char>> {
    if param == 1 {
        Some("VT100"@)
    } else if param == 6 {
        Some("VT102"@)
    } else if param == 62 {
        Some("VT220"@)
    } else if param == 63 {
        Some("VT320"@)
    } else if param == 64 {
        Some("VT420"@)
    } else if param == 65 {
        Some("VT525"@)
    } else {
        None
    }
}

/// Feature named by a later DA1 parameter.
pub open spec fn da1_feature_name(param: u16) -> Option<Seq<char>> {
    if param == 1 {
        Some("132-columns"@)
    } else if param == 2 {
        Some("printer"@)
    } else if param == 3 {
        Some("ReGIS-graphics"@)
    } else if param == 4 {
        Some("sixel"@)
    } else if param == 6 {
        Some("selective-erase"@)
    } else if param == 7 {
        Some("DRCS"@)
    } else if param == 8 {
        Some("UDK"@)
    } else if param == 9 {
        Some("national-replacement"@)
    } else if param == 12 {
        Some("SCS"@)
    } else if param == 15 {
        Some("technical-characters"@)
    } else if param == 18 {
        Some("windowing"@)
    } else if param == 21 {
        Some("horizontal-scrolling"@)
    } else if param == 22 {
        Some("ANSI-color"@)
    } else if param == 28 {
        Some("rectangular-editing"@)
    } else if param == 29 {
        Some("text-locator"@)
    } else {
        None
    }
}

/// Terminal model named by the first DA2 parameter.
pub open spec fn da2_terminal_name(param: u16) -> Option<Seq<char>> {
    if param == 0 {
        Some("VT100"@)
    } else if param == 1 {
        Some("VT220"@)
    } else if param == 2 {
        Some("VT240"@)
    } else if param == 18 {
        Some("VT330"@)
    } else if param == 19 {
        Some("VT340"@)
    } else if param == 24 {
        Some("VT320"@)
    } else if param == 32 {
        Some("VT382"@)
    } else if param == 41 {
        Some("VT420"@)
    } else if param == 61 {
        Some("VT510"@)
    } else if param == 64 {
        Some("VT520"@)
    } else if param == 65 {
        Some("VT525"@)
    } else {
        None
    }
}

/// Law: the DA1 feature codes of the DEC standard and their names; every
/// other code has no name (and is shown as its number).
pub proof fn law_da1_feature_table(p: u16)
    ensures
        p == 1 ==> da1_feature_name(p) == Some("132-columns"@),
        p == 2 ==> da1_feature_name(p) == Some("printer"@),
        p == 3 ==> da1_feature_name(p) == Some("ReGIS-graphics"@),
        p == 4 ==> da1_feature_name(p) == Some("sixel"@),
        p == 6 ==> da1_feature_name(p) == Some("selective-erase"@),
        p == 7 ==> da1_feature_name(p) == Some("DRCS"@),
        p == 8 ==> da1_feature_name(p) == Some("UDK"@),
        p == 9 ==> da1_feature_name(p) == Some("national-replacement"@),
        p == 12 ==> da1_feature_name(p) == Some("SCS"@),
        p == 15 ==> da1_feature_name(p) == Some("technical-characters"@),
        p == 18 ==> da1_feature_name(p) == Some("windowing"@),
        p == 21 ==> da1_feature_name(p) == Some("horizontal-scrolling"@),
        p == 22 ==> da1_feature_name(p) == Some("ANSI-color"@),
        p == 28 ==> da1_feature_name(p) == Some("rectangular-editing"@),
        p == 29 ==> da1_feature_name(p) == Some("text-locator"@),
        !(p == 1 || p == 2 || p == 3 || p == 4 || p == 6 || p == 7 || p == 8 || p == 9 || p == 12
            || p == 15 || p == 18 || p == 21 || p == 22 || p == 28 || p == 29) ==> da1_feature_name(
            p,
        ) is None,
{
}

/// Law: the DA1 conformance levels: 1 is VT100, 6 VT102, and 62 to 65 are
/// VT220, VT320, VT420 and VT525; every other level has no name.
pub proof fn law_da1_conformance_table(p: u16)
    ensures
        p == 1 ==> da1_conformance_name(p) == Some("VT100"@),
        p == 6 ==> da1_conformance_name(p) == Some("VT102"@),
        p == 62 ==> da1_conformance_name(p) == Some("VT220"@),
        p == 63 ==> da1_conformance_name(p) == Some("VT320"@),
        p == 64 ==> da1_conformance_name(p) == Some("VT420"@),
        p == 65 ==> da1_conformance_name(p) == Some("VT525"@),
        !(p == 1 || p == 6 || (62 <= p <= 65)) ==> da1_conformance_name(p) is None,
{
}

/// Law: the DA2 terminal types and their model names; every other type has
/// no name.
pub proof fn law_da2_terminal_table(p: u16)
    ensures
        p == 0 ==> da2_terminal_name(p) == Some("VT100"@),
        p == 1 ==> da2_terminal_name(p) == Some("VT220"@),
        p == 2 ==> da2_terminal_name(p) == Some("VT240"@),
        p == 18 ==> da2_terminal_name(p) == Some("VT330"@),
        p == 19 ==> da2_terminal_name(p) == Some("VT340"@),
        p == 24 ==> da2_terminal_name(p) == Some("VT320"@),
        p == 32 ==> da2_terminal_name(p) == Some("VT382"@),
        p == 41 ==> da2_terminal_name(p) == Some("VT420"@),
        p == 61 ==> da2_terminal_name(p) == Some("VT510"@),
        p == 64 ==> da2_terminal_name(p) == Some("VT520"@),
        p == 65 ==> da2_terminal_name(p) == Some("VT525"@),
        !(p == 0 || p == 1 || p == 2 || p == 18 || p == 19 || p == 24 || p == 32 || p == 41 || p
            == 61 || p == 64 || p == 65) ==> da2_terminal_name(p) is None,
{
}

/// Law: a DA1 reply shows its first parameter as the conformance level and
/// every later one as a feature, each by name where it has one and as its
/// number otherwise, in order, then the raw parameters in parentheses.
pub proof fn law_da1_text(params: Seq<u16>)
    ensures
        da1_text(params) == join(
            Seq::new(
                params.len(),
                |i: int|
                    if i == 0 {
                        match da1_conformance_name(params[i]) {
                            Some(n) => n,
                            None => decimal(params[i] as nat),
                        }
                    } else {
                        match da1_feature_name(params[i]) {
                            Some(n) => n,
                            None => decimal(params[i] as nat),
                        }
                    },
            ),
            ", "@,
        ) + " ("@ + join(params.map_values(|p: u16| decimal(p as nat)), ";"@) + ")"@,
{
    assert(Seq::new(params.len(), |i: int| da1_part(i, params[i])) =~= Seq::new(
        params.len(),
        |i: int|
            if i == 0 {
                match da1_conformance_name(params[i]) {
                    Some(n) => n,
                    None => decimal(params[i] as nat),
                }
            } else {
                match da1_feature_name(params[i]) {
                    Some(n) => n,
                    None => decimal(params[i] as nat),
                }
            },
    ));
}

/// A name if there is one, else the decimal number.
pub open spec fn name_or_number(name: Option<Seq<char>>, n: u16) -> Seq<char> {
    match name {
        Some(s) => s,
        None => decimal(n as nat),
    }
}

/// The parameters in decimal, separated by `;`.
pub open spec fn params_text(params: Seq<u16>) -> Seq<char> {
    join(params.map_values(|p: u16| decimal(p as nat)), ";"@)
}

/// Decoded DA1 parameter at position `i`.
pub open spec fn da1_part(i: int, p: u16) -> Seq<char> {
    if i == 0 {
        name_or_number(da1_conformance_name(p), p)
    } else {
        name_or_number(da1_feature_name(p), p)
    }
}

/// The text shown for a DA1 reply: decoded parameters, then the raw ones.
pub open spec fn da1_text(params: Seq<u16>) -> Seq<char> {
    join(Seq::new(params.len(), |i: int| da1_part(i, params[i])), ", "@) + " ("@ + params_text(
        params,
    ) + ")"@
}

/// The text shown for a DA2 reply: model, version, then the raw parameters.
pub open spec fn da2_text(params: Seq<u16>) -> Seq<char> {
    if params.len() == 0 {
        params_text(params)
    } else {
        let terminal = match da2_terminal_name(params[0]) {
            Some(s) => s,
            None => "type "@ + decimal(params[0] as nat),
        };
        let version: u16 = if params.len() > 1 {
            params[1]
        } else {
            0
        };
        terminal + ", version "@ + decimal(version as nat) + " ("@ + params_text(params) + ")"@
    }
}

/// The DA3 unit id as text, when it is hex-encoded printable ASCII;
/// empty otherwise.
pub open spec fn hex_id_text(id: Seq<char>) -> Seq<char> {
    match hex::decode_spec(id) {
        Some(b) => if b.len() > 0 && (forall|i: int| 0 <= i < b.len() ==> 0x21 <= #[trigger] b[i] <= 0x7e) {
            if valid_utf8(b) {
                decode_utf8(b)
            } else {
                Seq::empty()
            }
        } else {
            Seq::empty()
        },
        None => Seq::empty(),
    }
}

/// The text shown for a DA3 reply.
pub open spec fn da3_text(id: Seq<char>) -> Seq<char> {
    let decoded = hex_id_text(id);
    if decoded.len() == 0 {
        id
    } else {
        decoded + " ("@ + id + ")"@
    }
}

pub open spec fn is_da1() -> spec_fn(EventView) -> bool {
    |e: EventView| e is Da1
}

pub open spec fn is_da2() -> spec_fn(EventView) -> bool {
    |e: EventView| e is Da2
}

pub open spec fn is_da3() -> spec_fn(EventView) -> bool {
    |e: EventView| e is Da3
}

pub open spec fn is_xtversion() -> spec_fn(EventView) -> bool {
    |e: EventView| e is XtVersion
}

pub open spec fn is_tcap(cap_name: Seq<char>) -> spec_fn(EventView) -> bool {
    |e: EventView| e matches EventView::XtGetTcap { name, .. } && name == cap_name
}

/// Result of the DA1 probe.
pub open spec fn da1_outcome(events: Seq<EventView>) -> (ProbeStatus, Option<Seq<char>>) {
    match find_first(events, is_da1()) {
        Some(i) => (ProbeStatus::Supported, Some(da1_text(events[i]->Da1_params))),
        None => unknown(),
    }
}

/// Result of the DA2 probe.
pub open spec fn da2_outcome(events: Seq<EventView>) -> (ProbeStatus, Option<Seq<char>>) {
    match find_first(events, is_da2()) {
        Some(i) => (ProbeStatus::Supported, Some(da2_text(events[i]->Da2_params))),
        None => unknown(),
    }
}

/// Result of the DA3 probe.
pub open spec fn da3_outcome(events: Seq<EventView>) -> (ProbeStatus, Option<Seq<char>>) {
    match find_first(events, is_da3()) {
        Some(i) => (ProbeStatus::Supported, Some(da3_text(events[i]->id))),
        None => unknown(),
    }
}

/// Result of the XTVERSION probe.
pub open spec fn xtversion_outcome(events: Seq<EventView>) -> (ProbeStatus, Option<Seq<char>>) {
    match find_first(events, is_xtversion()) {
        Some(i) => (ProbeStatus::Supported, Some(events[i]->version)),
        None => unknown(),
    }
}

/// Result of an XTGETTCAP probe for `cap_name`: the first reply naming the
/// capability decides; a value means supported, no value unsupported.
pub open spec fn tcap_outcome(events: Seq<EventView>, cap_name: Seq<char>) -> (
    ProbeStatus,
    Option<Seq<char>>,
) {
    match find_first(events, is_tcap(cap_name)) {
        Some(i) => match events[i]->XtGetTcap_value {
            Some(v) => (ProbeStatus::Supported, Some(v)),
            None => (ProbeStatus::Unsupported, None),
        },
        None => unknown(),
    }
}

/// Conformance level named by the first DA1 parameter.
pub fn decode_da1_conformance(param: u16) -> (r: Option<&'static str>)
    ensures
        opt_str(r) == da1_conformance_name(param),
{
    match param {
        1 => Some("VT100"),
        6 => Some("VT102"),
        62 => Some("VT220"),
        63 => Some("VT320"),
        64 => Some("VT420"),
        65 => Some("VT525"),
        _ => None,
    }
}

/// Feature named by a later DA1 parameter.
pub fn decode_da1_feature(param: u16) -> (r: Option<&'static str>)
    ensures
        opt_str(r) == da1_feature_name(param),
{
    match param {
        1 => Some("132-columns"),
        2 => Some("printer"),
        3 => Some("ReGIS-graphics"),
        4 => Some("sixel"),
        6 => Some("selective-erase"),
        7 => Some("DRCS"),
        8 => Some("UDK"),
        9 => Some("national-replacement"),
        12 => Some("SCS"),
        15 => Some("technical-characters"),
        18 => Some("windowing"),
        21 => Some("horizontal-scrolling"),
        22 => Some("ANSI-color"),
        28 => Some("rectangular-editing"),
        29 => Some("text-locator"),
        _ => None,
    }
}

/// Terminal model named by the first DA2 parameter.
pub fn decode_da2_terminal(param: u16) -> (r: Option<&'static str>)
    ensures
        opt_str(r) == da2_terminal_name(param),
{
    match param {
        0 => Some("VT100"),
        1 => Some("VT220"),
        2 => Some("VT240"),
        18 => Some("VT330"),
        19 => Some("VT340"),
        24 => Some("VT320"),
        32 => Some("VT382"),
        41 => Some("VT420"),
        61 => Some("VT510"),
        64 => Some("VT520"),
        65 => Some("VT525"),
        _ => None,
    }
}

/// A name if there is one, else the decimal number.
fn name_or_number_chars(name: Option<&'static str>, n: u16) -> (r: Vec<char>)
    ensures
        r@ == name_or_number(opt_str(name), n),
{
    match name {
        Some(s) => chars_of(s),
        None => decimal_chars(n as u64),
    }
}

/// The parameters in decimal, separated by `;`.
fn params_chars(params: &[u16]) -> (r: Vec<char>)
    ensures
        r@ == params_text(params@),
{
    let mut parts: Vec<Vec<char>> = Vec::new();
    let mut i: usize = 0;
    while i < params.len()
        invariant
            i <= params.len(),
            parts@.len() == i,
            forall|k: int| 0 <= k < i ==> (#[trigger] parts@[k])@ == decimal(params@[k] as nat),
        decreases params.len() - i,
    {
        parts.push(decimal_chars(params[i] as u64));
        i = i + 1;
    }
    let sep = chars_of(";");
    let r = join_chars(&parts, sep.as_slice());
    assert(parts@.map_values(|p: Vec<char>| p@) =~= params@.map_values(
        |p: u16| decimal(p as nat),
    ));
    r
}

/// Text for a DA1 reply, e.g. `VT220, sixel, selective-erase (62;4;6)`.
pub fn decode_da1_params(params: &[u16]) -> (s: String)
    ensures
        s@ == da1_text(params@),
{
    let mut parts: Vec<Vec<char>> = Vec::new();
    let mut i: usize = 0;
    while i < params.len()
        invariant
            i <= params.len(),
            parts@.len() == i,
            forall|k: int| 0 <= k < i ==> (#[trigger] parts@[k])@ == da1_part(k, params@[k]),
        decreases params.len() - i,
    {
        let p = params[i];
        let part = if i == 0 {
            name_or_number_chars(decode_da1_conformance(p), p)
        } else {
            name_or_number_chars(decode_da1_feature(p), p)
        };
        parts.push(part);
        i = i + 1;
    }
    let sep = chars_of(", ");
    let mut out = join_chars(&parts, sep.as_slice());
    assert(parts@.map_values(|p: Vec<char>| p@) =~= Seq::new(
        params@.len(),
        |k: int| da1_part(k, params@[k]),
    ));
    extend_str(&mut out, " (");
    let raw = params_chars(params);
    extend_chars(&mut out, raw.as_slice());
    extend_str(&mut out, ")");
    string_of(out.as_slice())
}

/// Text for a DA2 reply, e.g. `VT420, version 382 (41;382;0)`.
pub fn decode_da2_params(params: &[u16]) -> (s: String)
    ensures
        s@ == da2_text(params@),
{
    let raw = params_chars(params);
    if params.len() == 0 {
        return string_of(raw.as_slice());
    }
    let mut out: Vec<char> = Vec::new();
    match decode_da2_terminal(params[0]) {
        Some(name) => extend_str(&mut out, name),
        None => {
            extend_str(&mut out, "type ");
            push_decimal(&mut out, params[0] as u64);
        },
    }
    let version: u16 = if params.len() > 1 {
        params[1]
    } else {
        0
    };
    extend_str(&mut out, ", version ");
    push_decimal(&mut out, version as u64);
    extend_str(&mut out, " (");
    extend_chars(&mut out, raw.as_slice());
    extend_str(&mut out, ")");
    string_of(out.as_slice())
}

/// The DA3 unit id decoded from hex when it is printable ASCII; empty
/// otherwise.
pub fn decode_hex_id(hex_id: &str) -> (s: String)
    ensures
        s@ == hex_id_text(hex_id@),
{
    let bytes = match hex::decode(hex_id) {
        Some(b) => b,
        None => {
            return String::new();
        },
    };
    let mut all_graphic = true;
    let mut i: usize = 0;
    while i < bytes.len()
        invariant
            i <= bytes.len(),
            all_graphic == (forall|k: int| 0 <= k < i ==> 0x21 <= #[trigger] bytes@[k] <= 0x7e),
        decreases bytes.len() - i,
    {
        if bytes[i] < 0x21 || bytes[i] > 0x7e {
            all_graphic = false;
        }
        i = i + 1;
    }
    if bytes.len() > 0 && all_graphic {
        match decode_strict(bytes) {
            Some(s) => s,
            None => String::new(),
        }
    } else {
        String::new()
    }
}

/// Text for a DA3 reply: the decoded id followed by the raw one, or just the
/// raw id.
pub fn da3_display(id: &String) -> (s: String)
    ensures
        s@ == da3_text(id@),
{
    let decoded = decode_hex_id(id.as_str());
    let d = chars_of(decoded.as_str());
    if d.len() == 0 {
        return id.clone();
    }
    let mut out = d;
    extend_str(&mut out, " (");
    extend_str(&mut out, id.as_str());
    extend_str(&mut out, ")");
    string_of(out.as_slice())
}

/// Reads the DA1 probe's replies.
pub fn interpret_da1(events: &[Event]) -> (r: (ProbeStatus, Option<String>))
    ensures
        outcome_view(r) == da1_outcome(events_view(events@)),
{
    let ghost ev = events_view(events@);
    let mut i: usize = 0;
    while i < events.len()
        invariant
            i <= events.len(),
            ev == events_view(events@),
            forall|j: int| 0 <= j < i ==> !is_da1()(#[trigger] ev[j]),
        decreases events.len() - i,
    {
        if let Event::Da1 { params } = &events[i] {
            proof {
                lemma_find_first(ev, is_da1(), i as int);
            }
            return (ProbeStatus::Supported, Some(decode_da1_params(params.as_slice())));
        }
        assert(!is_da1()(ev[i as int]));
        i = i + 1;
    }
    proof {
        lemma_find_first(ev, is_da1(), i as int);
    }
    (ProbeStatus::Unknown, None)
}

/// Reads the DA2 probe's replies.
pub fn interpret_da2(events: &[Event]) -> (r: (ProbeStatus, Option<String>))
    ensures
        outcome_view(r) == da2_outcome(events_view(events@)),
{
    let ghost ev = events_view(events@);
    let mut i: usize = 0;
    while i < events.len()
        invariant
            i <= events.len(),
            ev == events_view(events@),
            forall|j: int| 0 <= j < i ==> !is_da2()(#[trigger] ev[j]),
        decreases events.len() - i,
    {
        if let Event::Da2 { params } = &events[i] {
            proof {
                lemma_find_first(ev, is_da2(), i as int);
            }
            return (ProbeStatus::Supported, Some(decode_da2_params(params.as_slice())));
        }
        assert(!is_da2()(ev[i as int]));
        i = i + 1;
    }
    proof {
        lemma_find_first(ev, is_da2(), i as int);
    }
    (ProbeStatus::Unknown, None)
}

/// Reads the DA3 probe's replies.
pub fn interpret_da3(events: &[Event]) -> (r: (ProbeStatus, Option<String>))
    ensures
        outcome_view(r) == da3_outcome(events_view(events@)),
{
    let ghost ev = events_view(events@);
    let mut i: usize = 0;
    while i < events.len()
        invariant
            i <= events.len(),
            ev == events_view(events@),
            forall|j: int| 0 <= j < i ==> !is_da3()(#[trigger] ev[j]),
        decreases events.len() - i,
    {
        if let Event::Da3 { id } = &events[i] {
            proof {
                lemma_find_first(ev, is_da3(), i as int);
            }
            return (ProbeStatus::Supported, Some(da3_display(id)));
        }
        assert(!is_da3()(ev[i as int]));
        i = i + 1;
    }
    proof {
        lemma_find_first(ev, is_da3(), i as int);
    }
    (ProbeStatus::Unknown, None)
}

/// Reads the XTVERSION probe's replies.
pub fn interpret_xtversion(events: &[Event]) -> (r: (ProbeStatus, Option<String>))
    ensures
        outcome_view(r) == xtversion_outcome(events_view(events@)),
{
    let ghost ev = events_view(events@);
    let mut i: usize = 0;
    while i < events.len()
        invariant
            i <= events.len(),
            ev == events_view(events@),
            forall|j: int| 0 <= j < i ==> !is_xtversion()(#[trigger] ev[j]),
        decreases events.len() - i,
    {
        if let Event::XtVersion { version } = &events[i] {
            proof {
                lemma_find_first(ev, is_xtversion(), i as int);
            }
            return (ProbeStatus::Supported, Some(version.clone()));
        }
        assert(!is_xtversion()(ev[i as int]));
        i = i + 1;
    }
    proof {
        lemma_find_first(ev, is_xtversion(), i as int);
    }
    (ProbeStatus::Unknown, None)
}

/// Reads an XTGETTCAP probe's replies for capability `cap_name`.
pub fn interpret_tcap(events: &[Event], cap_name: &str) -> (r: (ProbeStatus, Option<String>))
    ensures
        outcome_view(r) == tcap_outcome(events_view(events@), cap_name@),
{
    let ghost ev = events_view(events@);
    let want = chars_of(cap_name);
    let mut i: usize = 0;
    while i < events.len()
        invariant
            i <= events.len(),
            ev == events_view(events@),
            want@ == cap_name@,
            forall|j: int| 0 <= j < i ==> !is_tcap(cap_name@)(#[trigger] ev[j]),
        decreases events.len() - i,
    {
        if let Event::XtGetTcap { name, value } = &events[i] {
            let n = chars_of(name.as_str());
            if chars_eq(n.as_slice(), want.as_slice()) {
                proof {
                    lemma_find_first(ev, is_tcap(cap_name@), i as int);
                }
                return match value {
                    Some(val) => (ProbeStatus::Supported, Some(val.clone())),
                    None => (ProbeStatus::Unsupported, None),
                };
            }
        }
        assert(!is_tcap(cap_name@)(ev[i as int]));
        i = i + 1;
    }
    proof {
        lemma_find_first(ev, is_tcap(cap_name@), i as int);
    }
    (ProbeStatus::Unknown, None)
}

/// An XTGETTCAP probe for the capability `cap_name`, hex-encoded as
/// `cap_hex`.
pub fn xtgettcap_probe(name: &'static str, cap_name: &'static str, cap_hex: &'static str) -> (p:
    Probe)
    ensures
        p@ == plain_probe(
            name@,
            Category::Identity,
            vstd::utf8::encode_utf8("\x1bP+q"@) + vstd::utf8::encode_utf8(cap_hex@) + seq![
                0x1bu8,
                0x5cu8,
            ],
            InterpreterView::XtGetTcap { cap_name: cap_name@ },
        ),
{
    let mut query = str_bytes("\x1bP+q");
    let hex_bytes = str_bytes(cap_hex);
    let mut i: usize = 0;
    let ghost start = query@;
    while i < hex_bytes.len()
        invariant
            i <= hex_bytes.len(),
            query@ == start + hex_bytes@.subrange(0, i as int),
        decreases hex_bytes.len() - i,
    {
        query.push(hex_bytes[i]);
        i = i + 1;
        assert(hex_bytes@.subrange(0, i as int) == hex_bytes@.subrange(0, i - 1).push(
            hex_bytes@[i - 1],
        ));
    }
    assert(hex_bytes@.subrange(0, hex_bytes@.len() as int) == hex_bytes@);
    query.push(0x1b);
    query.push(0x5c);
    assert(query@ =~= vstd::utf8::encode_utf8("\x1bP+q"@) + vstd::utf8::encode_utf8(cap_hex@) + seq![
        0x1bu8,
        0x5cu8,
    ]);
    Probe::new(name, Category::Identity, query, Interpreter::XtGetTcap { cap_name })
}

/// Model of an XTGETTCAP probe.
pub open spec fn tcap_probe_view(name: Seq<char>, cap_name: Seq<char>, cap_hex: Seq<char>) -> ProbeView {
    plain_probe(
        name,
        Category::Identity,
        vstd::utf8::encode_utf8("\x1bP+q"@) + vstd::utf8::encode_utf8(cap_hex) + seq![0x1bu8, 0x5cu8],
        InterpreterView::XtGetTcap { cap_name },
    )
}

/// The identity probes, in report order.
pub open spec fn identity_probes_spec() -> Seq<ProbeView> {
    seq![
        ProbeView {
            name: "da1"@,
            label: None,
            category: Category::Identity,
            query: vstd::utf8::encode_utf8("\x1b[c"@),
            interpreter: InterpreterView::Da1,
            is_sentinel: true,
        },
        plain_probe("da2"@, Category::Identity, vstd::utf8::encode_utf8("\x1b[>c"@), InterpreterView::Da2),
        plain_probe("da3"@, Category::Identity, vstd::utf8::encode_utf8("\x1b[=c"@), InterpreterView::Da3),
        tcap_probe_view("xtgettcap-tn"@, "TN"@, "544e"@),
        tcap_probe_view("xtgettcap-rgb"@, "RGB"@, "524742"@),
        tcap_probe_view("xtgettcap-smulx"@, "Smulx"@, "536d756c78"@),
        tcap_probe_view("xtgettcap-hpa"@, "hpa"@, "687061"@),
        tcap_probe_view("xtgettcap-se"@, "Se"@, "5365"@),
        tcap_probe_view("xtgettcap-ss"@, "Ss"@, "5373"@),
        tcap_probe_view("xtgettcap-tc"@, "Tc"@, "5463"@),
        tcap_probe_view("xtgettcap-ms"@, "Ms"@, "4d73"@),
        tcap_probe_view("xtgettcap-sitm"@, "sitm"@, "7369746d"@),
        tcap_probe_view("xtgettcap-ritm"@, "ritm"@, "7269746d"@),
        plain_probe(
            "xtversion"@,
            Category::Identity,
            vstd::utf8::encode_utf8("\x1b[>0q"@),
            InterpreterView::XtVersion,
        ),
    ]
}

/// The identity probes: device attributes, terminfo capabilities and the
/// terminal's name and version.
pub fn probes() -> (v: Vec<Probe>)
    ensures
        crate::probe::probes_view(v@) == identity_probes_spec(),
{
    let mut v: Vec<Probe> = Vec::new();
    v.push(
        Probe {
            label: None,
            name: "da1",
            category: Category::Identity,
            is_sentinel: true,
            query: str_bytes("\x1b[c"),
            interpreter: Interpreter::Da1,
        },
    );
    v.push(Probe::new("da2", Category::Identity, str_bytes("\x1b[>c"), Interpreter::Da2));
    v.push(Probe::new("da3", Category::Identity, str_bytes("\x1b[=c"), Interpreter::Da3));
    v.push(xtgettcap_probe("xtgettcap-tn", "TN", "544e"));
    v.push(xtgettcap_probe("xtgettcap-rgb", "RGB", "524742"));
    v.push(xtgettcap_probe("xtgettcap-smulx", "Smulx", "536d756c78"));
    v.push(xtgettcap_probe("xtgettcap-hpa", "hpa", "687061"));
    v.push(xtgettcap_probe("xtgettcap-se", "Se", "5365"));
    v.push(xtgettcap_probe("xtgettcap-ss", "Ss", "5373"));
    v.push(xtgettcap_probe("xtgettcap-tc", "Tc", "5463"));
    v.push(xtgettcap_probe("xtgettcap-ms", "Ms", "4d73"));
    v.push(xtgettcap_probe("xtgettcap-sitm", "sitm", "7369746d"));
    v.push(xtgettcap_probe("xtgettcap-ritm", "ritm", "7269746d"));
    v.push(
        Probe::new("xtversion", Category::Identity, str_bytes("\x1b[>0q"), Interpreter::XtVersion),
    );
    assert(crate::probe::probes_view(v@) =~= identity_probes_spec());
    v
}

} // verus!
