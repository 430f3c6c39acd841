//! Color, styling and feature probes: OSC color queries and SGR state read
//! back with DECRQSS.
use vstd::prelude::*;
use vstd::utf8::encode_utf8;
use crate::parser::{Event, EventView, events_view};
use crate::probe::{
    find_first, lemma_find_first, outcome_view, plain_probe, str_bytes, strs_view, unknown,
    Category, Interpreter, InterpreterView, Probe, ProbeStatus, ProbeView,
};
use crate::text::{
    all_hex_digits, chars_eq, chars_of, contains_exec, contains_sub, decimal, extend_chars,
    extend_str, has_prefix, has_prefix_exec, has_suffix, has_suffix_exec, hex_digit_char,
    hex_value, join, join_chars, parse_hex_u16, parse_hex_u16_exec, push_decimal, slice_chars,
    sort_distinct, sorted_distinct, split_chars, split_on, string_from, string_of, strip_leading,
    strip_leading_chars, trim, trim_chars,
};

verus! {

// ---------------------------------------------------------------------------
// Color normalisation
// ---------------------------------------------------------------------------

/// Number of bytes in the UTF-8 encoding of `c`.
pub open spec fn utf8_width(c: char) -> nat {
    if (c as u32) < 0x80 {
        1
    } else if (c as u32) < 0x800 {
        2
    } else if (c as u32) < 0x10000 {
        3
    } else {
        4
    }
}

/// The first two bytes of `p` (all of it when shorter), as `&p[..p.len().min(2)]`
/// takes them; `None` where that cut falls inside a character and the
/// slicing would panic.
pub open spec fn cut2(p: Seq<char>) -> Option<Seq<char>> {
    if p.len() == 0 {
        Some(p)
    } else if utf8_width(p[0]) == 1 {
        if p.len() == 1 {
            Some(p)
        } else if utf8_width(p[1]) == 1 {
            Some(p.take(2))
        } else {
            None
        }
    } else if utf8_width(p[0]) == 2 {
        Some(p.take(1))
    } else {
        None
    }
}

/// The components of an `rgb:` color specification.
pub open spec fn rgb_parts(v: Seq<char>) -> Seq<Seq<char>> {
    split_on(v.subrange("rgb:"@.len() as int, v.len() as int), '/')
}

/// `v` is an `rgb:` color specification with three components.
pub open spec fn is_rgb3(v: Seq<char>) -> bool {
    has_prefix(v, "rgb:"@) && rgb_parts(v).len() == 3
}

/// Normalising `v` does not panic: each of the three components of an
/// `rgb:` specification can be cut after two bytes.
pub open spec fn normalize_ok(v: Seq<char>) -> bool {
    is_rgb3(v) ==> (cut2(rgb_parts(v)[0]) is Some && cut2(rgb_parts(v)[1]) is Some && cut2(
        rgb_parts(v)[2],
    ) is Some)
}

/// The 8-bit value of one component: its first two hexadecimal digits.
pub open spec fn component(p: Seq<char>) -> Option<u16> {
    parse_hex_u16(cut2(p).unwrap())
}

/// Two lower-case hexadecimal digits, as `{:02x}` formats a value below 256.
pub open spec fn hex2(n: u16) -> Seq<char> {
    seq![hex_digit_char((n / 16) as nat), hex_digit_char((n % 16) as nat)]
}

/// A color as reports show it: `rgb:RRRR/GGGG/BBBB` (any number of digits)
/// becomes `#rrggbb` from the first two digits of each component; anything
/// else is kept as it is.
pub open spec fn normalize_spec(v: Seq<char>) -> Seq<char> {
    if is_rgb3(v) && component(rgb_parts(v)[0]) is Some && component(rgb_parts(v)[1]) is Some
        && component(rgb_parts(v)[2]) is Some {
        "#"@ + hex2(component(rgb_parts(v)[0]).unwrap()) + hex2(
            component(rgb_parts(v)[1]).unwrap(),
        ) + hex2(component(rgb_parts(v)[2]).unwrap())
    } else {
        v
    }
}

/// Number of bytes in the UTF-8 encoding of `c`.
fn utf8_width_exec(c: char) -> (w: usize)
    ensures
        w == utf8_width(c),
{
    let u = c as u32;
    if u < 0x80 {
        1
    } else if u < 0x800 {
        2
    } else if u < 0x10000 {
        3
    } else {
        4
    }
}

/// The first two bytes of `p`, when the cut falls between characters.
fn cut2_exec(p: &[char]) -> (r: Option<Vec<char>>)
    ensures
        r matches Some(v) ==> cut2(p@) == Some(v@),
        r is None ==> cut2(p@) is None,
{
    if p.len() == 0 {
        Some(slice_chars(p, 0, 0))
    } else if utf8_width_exec(p[0]) == 1 {
        if p.len() == 1 {
            Some(slice_chars(p, 0, 1))
        } else if utf8_width_exec(p[1]) == 1 {
            Some(slice_chars(p, 0, 2))
        } else {
            None
        }
    } else if utf8_width_exec(p[0]) == 2 {
        Some(slice_chars(p, 0, 1))
    } else {
        None
    }
}

/// The 8-bit value of one component.
fn component_exec(p: &[char]) -> (r: Option<u16>)
    requires
        cut2(p@) is Some,
    ensures
        r == component(p@),
        r matches Some(n) ==> n < 256,
{
    match cut2_exec(p) {
        Some(c) => {
            let r = parse_hex_u16_exec(c.as_slice());
            proof {
                if r is Some {
                    let digits = if c@.len() > 0 && c@[0] == '+' {
                        c@.drop_first()
                    } else {
                        c@
                    };
                    crate::text::lemma_hex_value_small(digits);
                }
            }
            r
        },
        None => None,
    }
}

/// Appends `{:02x}` of `n`.
fn push_hex2(v: &mut Vec<char>, n: u16)
    requires
        n < 256,
    ensures
        final(v)@ == old(v)@ + hex2(n),
{
    let hi: u8 = (n / 16) as u8;
    let lo: u8 = (n % 16) as u8;
    let h = if hi < 10 {
        (48u8 + hi) as char
    } else {
        (87u8 + hi) as char
    };
    let l = if lo < 10 {
        (48u8 + lo) as char
    } else {
        (87u8 + lo) as char
    };
    v.push(h);
    v.push(l);
    assert(final(v)@ =~= old(v)@ + hex2(n));
}

/// A color as reports show it: `rgb:ffff/0000/8080` becomes `#ff0080`;
/// other values are kept unchanged.
pub fn normalize_color(value: &str) -> (s: String)
    requires
        normalize_ok(value@),
    ensures
        s@ == normalize_spec(value@),
{
    let v = chars_of(value);
    let prefix = chars_of("rgb:");
    if has_prefix_exec(v.as_slice(), prefix.as_slice()) {
        let rest = slice_chars(v.as_slice(), prefix.len(), v.len());
        let parts = split_chars(rest.as_slice(), '/');
        proof {
            assert(parts@.map_values(|p: Vec<char>| p@).len() == parts@.len());
        }
        if parts.len() == 3 {
            proof {
                assert(parts@[0]@ == rgb_parts(value@)[0]);
                assert(parts@[1]@ == rgb_parts(value@)[1]);
                assert(parts@[2]@ == rgb_parts(value@)[2]);
            }
            let r = component_exec(parts[0].as_slice());
            let g = component_exec(parts[1].as_slice());
            let b = component_exec(parts[2].as_slice());
            if let (Some(r), Some(g), Some(b)) = (r, g, b) {
                let mut out: Vec<char> = Vec::new();
                out.push('#');
                push_hex2(&mut out, r);
                push_hex2(&mut out, g);
                push_hex2(&mut out, b);
                proof {
                    reveal_strlit("#");
                    assert(out@ =~= "#"@ + hex2(r) + hex2(g) + hex2(b));
                }
                return string_of(out.as_slice());
            }
        }
    }
    string_from(value)
}

// ---------------------------------------------------------------------------
// OSC color probes
// ---------------------------------------------------------------------------

pub open spec fn is_osc_index(index: u16) -> spec_fn(EventView) -> bool {
    |e: EventView| e is OscColor && e->index == index
}

pub open spec fn is_palette_one() -> spec_fn(EventView) -> bool {
    |e: EventView| e is OscColor && e->index == 4 && e->sub_index == Some("1"@)
}

pub open spec fn is_clipboard_reply() -> spec_fn(EventView) -> bool {
    |e: EventView| e is OscColor && e->index == 52 && e->sub_index is Some
}

/// Result of a color probe: the first reply matching `p`, normalised.
pub open spec fn color_outcome(events: Seq<EventView>, p: spec_fn(EventView) -> bool) -> (
    ProbeStatus,
    Option<Seq<char>>,
) {
    match find_first(events, p) {
        Some(i) => (ProbeStatus::Supported, Some(normalize_spec(events[i]->OscColor_value))),
        None => unknown(),
    }
}

/// Reading the replies with `p` does not panic.
pub open spec fn color_ok(events: Seq<EventView>, p: spec_fn(EventView) -> bool) -> bool {
    match find_first(events, p) {
        Some(i) => normalize_ok(events[i]->OscColor_value),
        None => true,
    }
}

/// Result of the OSC 52 clipboard probe.
pub open spec fn clipboard_outcome(events: Seq<EventView>) -> (ProbeStatus, Option<Seq<char>>) {
    match find_first(events, is_clipboard_reply()) {
        Some(i) => (ProbeStatus::Supported, None),
        None => unknown(),
    }
}

/// Reads the replies to an OSC color query for `index`.
pub fn interpret_osc_color(events: &[Event], index: u16) -> (r: (ProbeStatus, Option<String>))
    requires
        color_ok(events_view(events@), is_osc_index(index)),
    ensures
        outcome_view(r) == color_outcome(events_view(events@), is_osc_index(index)),
{
    let ghost ev = events_view(events@);
    let mut i: usize = 0;
    while i < events.len()
        invariant
            i <= events.len(),
            ev == events_view(events@),
            color_ok(ev, is_osc_index(index)),
            forall|j: int| 0 <= j < i ==> !is_osc_index(index)(#[trigger] ev[j]),
        decreases events.len() - i,
    {
        if let Event::OscColor { index: idx, value, .. } = &events[i] {
            if *idx == index {
                proof {
                    lemma_find_first(ev, is_osc_index(index), i as int);
                }
                return (ProbeStatus::Supported, Some(normalize_color(value.as_str())));
            }
        }
        assert(!is_osc_index(index)(ev[i as int]));
        i = i + 1;
    }
    proof {
        lemma_find_first(ev, is_osc_index(index), i as int);
    }
    (ProbeStatus::Unknown, None)
}

/// Reads the replies to the palette color query (entry 1).
pub fn interpret_palette(events: &[Event]) -> (r: (ProbeStatus, Option<String>))
    requires
        color_ok(events_view(events@), is_palette_one()),
    ensures
        outcome_view(r) == color_outcome(events_view(events@), is_palette_one()),
{
    let ghost ev = events_view(events@);
    let one = chars_of("1");
    let mut i: usize = 0;
    while i < events.len()
        invariant
            i <= events.len(),
            ev == events_view(events@),
            one@ == "1"@,
            color_ok(ev, is_palette_one()),
            forall|j: int| 0 <= j < i ==> !is_palette_one()(#[trigger] ev[j]),
        decreases events.len() - i,
    {
        if let Event::OscColor { index, sub_index: Some(sub), value } = &events[i] {
            let s = chars_of(sub.as_str());
            if *index == 4 && chars_eq(s.as_slice(), one.as_slice()) {
                proof {
                    lemma_find_first(ev, is_palette_one(), i as int);
                }
                return (ProbeStatus::Supported, Some(normalize_color(value.as_str())));
            }
        }
        assert(!is_palette_one()(ev[i as int]));
        i = i + 1;
    }
    proof {
        lemma_find_first(ev, is_palette_one(), i as int);
    }
    (ProbeStatus::Unknown, None)
}

/// Reads the replies to the OSC 52 clipboard query.
pub fn interpret_clipboard(events: &[Event]) -> (r: (ProbeStatus, Option<String>))
    ensures
        outcome_view(r) == clipboard_outcome(events_view(events@)),
{
    let ghost ev = events_view(events@);
    let mut i: usize = 0;
    while i < events.len()
        invariant
            i <= events.len(),
            ev == events_view(events@),
            forall|j: int| 0 <= j < i ==> !is_clipboard_reply()(#[trigger] ev[j]),
        decreases events.len() - i,
    {
        if let Event::OscColor { index, sub_index: Some(_), .. } = &events[i] {
            if *index == 52 {
                proof {
                    lemma_find_first(ev, is_clipboard_reply(), i as int);
                }
                return (ProbeStatus::Supported, None);
            }
        }
        assert(!is_clipboard_reply()(ev[i as int]));
        i = i + 1;
    }
    proof {
        lemma_find_first(ev, is_clipboard_reply(), i as int);
    }
    (ProbeStatus::Unknown, None)
}

// ---------------------------------------------------------------------------
// Background color for the dark/light theme
// ---------------------------------------------------------------------------

/// One component of an `rgb:` color as a hexadecimal number, with the
/// largest value its digit count allows (one to four digits); the
/// luminance is computed from the ratio of the two.
pub open spec fn rgb_component(s: Seq<char>) -> Option<(u16, u16)> {
    match parse_hex_u16(s) {
        Some(v) => if s.len() == 1 {
            Some((v, 0xf))
        } else if s.len() == 2 {
            Some((v, 0xff))
        } else if s.len() == 3 {
            Some((v, 0xfff))
        } else if s.len() == 4 {
            Some((v, 0xffff))
        } else {
            None
        },
        None => None,
    }
}

/// The three components of an `rgb:r/g/b` color, each with its largest
/// value; `None` when `v` is not such a color.
pub open spec fn rgb_components(v: Seq<char>) -> Option<Seq<(u16, u16)>> {
    if is_rgb3(v) && rgb_component(rgb_parts(v)[0]) is Some && rgb_component(rgb_parts(v)[1]) is Some
        && rgb_component(rgb_parts(v)[2]) is Some {
        Some(
            seq![
                rgb_component(rgb_parts(v)[0]).unwrap(),
                rgb_component(rgb_parts(v)[1]).unwrap(),
                rgb_component(rgb_parts(v)[2]).unwrap(),
            ],
        )
    } else {
        None
    }
}

/// One component of an `rgb:` color.
fn rgb_component_exec(s: &[char]) -> (r: Option<(u16, u16)>)
    ensures
        r == rgb_component(s@),
{
    match parse_hex_u16_exec(s) {
        Some(v) => if s.len() == 1 {
            Some((v, 0xf))
        } else if s.len() == 2 {
            Some((v, 0xff))
        } else if s.len() == 3 {
            Some((v, 0xfff))
        } else if s.len() == 4 {
            Some((v, 0xffff))
        } else {
            None
        },
        None => None,
    }
}

/// The three components of an `rgb:r/g/b` color, each with the largest
/// value its digit count allows.
pub fn rgb_components_of(value: &str) -> (r: Option<Vec<(u16, u16)>>)
    ensures
        match r {
            Some(c) => rgb_components(value@) == Some(c@),
            None => rgb_components(value@) is None,
        },
{
    let v = chars_of(value);
    let prefix = chars_of("rgb:");
    if !has_prefix_exec(v.as_slice(), prefix.as_slice()) {
        return None;
    }
    let rest = slice_chars(v.as_slice(), prefix.len(), v.len());
    let parts = split_chars(rest.as_slice(), '/');
    proof {
        assert(parts@.map_values(|p: Vec<char>| p@).len() == parts@.len());
    }
    if parts.len() != 3 {
        return None;
    }
    proof {
        assert(parts@[0]@ == rgb_parts(value@)[0]);
        assert(parts@[1]@ == rgb_parts(value@)[1]);
        assert(parts@[2]@ == rgb_parts(value@)[2]);
    }
    let r = rgb_component_exec(parts[0].as_slice());
    let g = rgb_component_exec(parts[1].as_slice());
    let b = rgb_component_exec(parts[2].as_slice());
    match (r, g, b) {
        (Some(r), Some(g), Some(b)) => {
            let out = vec![r, g, b];
            assert(out@ =~= rgb_components(value@).unwrap());
            Some(out)
        },
        _ => None,
    }
}

/// A background color reply (OSC 11) whose value is an `rgb:` color.
pub open spec fn is_rgb_background() -> spec_fn(EventView) -> bool {
    |e: EventView|
        e matches EventView::OscColor { index, value, .. } && index == 11 && rgb_components(value) is Some
}

/// The components of the first background color reply that is an `rgb:`
/// color: what the dark/light theme probe reads its luminance from.
pub open spec fn theme_background(events: Seq<EventView>) -> Option<Seq<(u16, u16)>> {
    match find_first(events, is_rgb_background()) {
        Some(i) => rgb_components(events[i]->OscColor_value),
        None => None,
    }
}

/// The components of the first background color reply that is an `rgb:`
/// color, if any.
pub fn theme_background_of(events: &[Event]) -> (r: Option<Vec<(u16, u16)>>)
    ensures
        match r {
            Some(c) => theme_background(events_view(events@)) == Some(c@),
            None => theme_background(events_view(events@)) is None,
        },
{
    let ghost ev = events_view(events@);
    let mut i: usize = 0;
    while i < events.len()
        invariant
            i <= events.len(),
            ev == events_view(events@),
            forall|j: int| 0 <= j < i ==> !is_rgb_background()(#[trigger] ev[j]),
        decreases events.len() - i,
    {
        if let Event::OscColor { index, value, .. } = &events[i] {
            if *index == 11 {
                if let Some(c) = rgb_components_of(value.as_str()) {
                    proof {
                        lemma_find_first(ev, is_rgb_background(), i as int);
                    }
                    return Some(c);
                }
            }
        }
        assert(!is_rgb_background()(ev[i as int]));
        i = i + 1;
    }
    proof {
        lemma_find_first(ev, is_rgb_background(), i as int);
    }
    None
}

// ---------------------------------------------------------------------------
// DECRQSS probes
// ---------------------------------------------------------------------------

/// Some reply is a valid DECRQSS report.
pub open spec fn any_valid_decrqss(events: Seq<EventView>) -> bool {
    exists|i: int| 0 <= i < events.len() && #[trigger] events[i] is Decrqss && events[i]->valid
}

/// The SGR parameters of a DECRQSS payload: without one trailing `m`,
/// split at `;`.
pub open spec fn sgr_params(payload: Seq<char>) -> Seq<Seq<char>> {
    let p = if has_suffix(payload, "m"@) {
        payload.subrange(0, payload.len() - 1)
    } else {
        payload
    };
    split_on(p, ';')
}

/// The payload sets exactly `marker`, possibly after a reset (`0;`).
pub open spec fn sgr_attr_match(payload: Seq<char>, marker: Seq<char>) -> bool {
    let parts = sgr_params(payload);
    (parts.len() == 1 && parts[0] == marker) || (parts.len() == 2 && parts[0] == "0"@ && parts[1]
        == marker)
}

/// The payload sets exactly double underline (`21` or `4:2`), possibly
/// after a reset (`0;`).
pub open spec fn double_underline_match(payload: Seq<char>) -> bool {
    let parts = sgr_params(payload);
    (parts.len() == 1 && (parts[0] == "21"@ || parts[0] == "4:2"@)) || (parts.len() == 2
        && parts[0] == "0"@ && (parts[1] == "21"@ || parts[1] == "4:2"@))
}

/// Which DECRQSS payloads count as support.
pub enum SgrMatch {
    /// Exactly this attribute.
    Attribute { marker: &'static str },
    /// Containing this text.
    Contains { marker: &'static str },
    /// Double underline in either form.
    DoubleUnderline,
}

pub open spec fn attr_matcher(marker: Seq<char>) -> spec_fn(Seq<char>) -> bool {
    |p: Seq<char>| sgr_attr_match(p, marker)
}

pub open spec fn contains_matcher(marker: Seq<char>) -> spec_fn(Seq<char>) -> bool {
    |p: Seq<char>| contains_sub(p, marker)
}

pub open spec fn double_underline_matcher() -> spec_fn(Seq<char>) -> bool {
    |p: Seq<char>| double_underline_match(p)
}

/// The payload test that `m` stands for.
pub open spec fn sgr_matcher(m: SgrMatch) -> spec_fn(Seq<char>) -> bool {
    match m {
        SgrMatch::Attribute { marker } => attr_matcher(marker@),
        SgrMatch::Contains { marker } => contains_matcher(marker@),
        SgrMatch::DoubleUnderline => double_underline_matcher(),
    }
}

pub open spec fn is_matching_decrqss(matcher: spec_fn(Seq<char>) -> bool) -> spec_fn(
    EventView,
) -> bool {
    |e: EventView| e is Decrqss && e->valid && matcher(e->Decrqss_payload)
}

/// Result of a DECRQSS probe: the first valid report that matches; else
/// unsupported when some valid report came back, unknown when none did.
pub open spec fn decrqss_outcome(events: Seq<EventView>, matcher: spec_fn(Seq<char>) -> bool) -> (
    ProbeStatus,
    Option<Seq<char>>,
) {
    match find_first(events, is_matching_decrqss(matcher)) {
        Some(i) => (ProbeStatus::Supported, Some(events[i]->Decrqss_payload)),
        None => if any_valid_decrqss(events) {
            (ProbeStatus::Unsupported, None)
        } else {
            unknown()
        },
    }
}

/// The SGR parameters of a DECRQSS payload.
fn sgr_params_exec(payload: &[char]) -> (r: Vec<Vec<char>>)
    ensures
        r@.map_values(|p: Vec<char>| p@) == sgr_params(payload@),
{
    let m = chars_of("m");
    let p = if has_suffix_exec(payload, m.as_slice()) {
        proof {
            reveal_strlit("m");
        }
        slice_chars(payload, 0, payload.len() - 1)
    } else {
        slice_chars(payload, 0, payload.len())
    };
    assert(payload@.subrange(0, payload@.len() as int) == payload@);
    split_chars(p.as_slice(), ';')
}

/// Whether `payload` passes the test `m`.
fn sgr_matches(m: &SgrMatch, payload: &[char]) -> (r: bool)
    ensures
        r == sgr_matcher(*m)(payload@),
{
    match m {
        SgrMatch::Attribute { marker } => {
            let parts = sgr_params_exec(payload);
            let want = chars_of(marker);
            let zero = chars_of("0");
            proof {
                assert(parts@.map_values(|p: Vec<char>| p@).len() == parts@.len());
            }
            if parts.len() == 1 {
                proof {
                    assert(parts@[0]@ == sgr_params(payload@)[0]);
                }
                chars_eq(parts[0].as_slice(), want.as_slice())
            } else if parts.len() == 2 {
                proof {
                    assert(parts@[0]@ == sgr_params(payload@)[0]);
                    assert(parts@[1]@ == sgr_params(payload@)[1]);
                }
                chars_eq(parts[0].as_slice(), zero.as_slice()) && chars_eq(
                    parts[1].as_slice(),
                    want.as_slice(),
                )
            } else {
                false
            }
        },
        SgrMatch::Contains { marker } => {
            let want = chars_of(marker);
            contains_exec(payload, want.as_slice())
        },
        SgrMatch::DoubleUnderline => {
            let parts = sgr_params_exec(payload);
            let a = chars_of("21");
            let b = chars_of("4:2");
            let zero = chars_of("0");
            proof {
                assert(parts@.map_values(|p: Vec<char>| p@).len() == parts@.len());
            }
            if parts.len() == 1 {
                proof {
                    assert(parts@[0]@ == sgr_params(payload@)[0]);
                }
                chars_eq(parts[0].as_slice(), a.as_slice()) || chars_eq(
                    parts[0].as_slice(),
                    b.as_slice(),
                )
            } else if parts.len() == 2 {
                proof {
                    assert(parts@[0]@ == sgr_params(payload@)[0]);
                    assert(parts@[1]@ == sgr_params(payload@)[1]);
                }
                chars_eq(parts[0].as_slice(), zero.as_slice()) && (chars_eq(
                    parts[1].as_slice(),
                    a.as_slice(),
                ) || chars_eq(parts[1].as_slice(), b.as_slice()))
            } else {
                false
            }
        },
    }
}

/// Reads the replies to a DECRQSS probe whose support test is `m`.
pub fn interpret_decrqss(events: &[Event], m: &SgrMatch) -> (r: (ProbeStatus, Option<String>))
    ensures
        outcome_view(r) == decrqss_outcome(events_view(events@), sgr_matcher(*m)),
{
    let ghost ev = events_view(events@);
    let ghost matcher = sgr_matcher(*m);
    let mut saw_valid = false;
    let mut i: usize = 0;
    while i < events.len()
        invariant
            i <= events.len(),
            ev == events_view(events@),
            matcher == sgr_matcher(*m),
            forall|j: int| 0 <= j < i ==> !is_matching_decrqss(matcher)(#[trigger] ev[j]),
            saw_valid == any_valid_decrqss(ev.take(i as int)),
        decreases events.len() - i,
    {
        let ghost pre = ev.take(i as int);
        let ghost next = ev.take(i + 1);
        if let Event::Decrqss { valid, payload } = &events[i] {
            if *valid {
                let p = chars_of(payload.as_str());
                if sgr_matches(m, p.as_slice()) {
                    proof {
                        lemma_find_first(ev, is_matching_decrqss(matcher), i as int);
                    }
                    return (ProbeStatus::Supported, Some(payload.clone()));
                }
                saw_valid = true;
            }
        }
        proof {
            assert(next[i as int] == ev[i as int]);
            if any_valid_decrqss(next) {
                let k = choose|k: int| 0 <= k < next.len() && #[trigger] next[k] is Decrqss && next[k]->valid;
                if k < i {
                    assert(pre[k] == next[k]);
                }
            }
            if any_valid_decrqss(pre) {
                let k = choose|k: int| 0 <= k < pre.len() && #[trigger] pre[k] is Decrqss && pre[k]->valid;
                assert(pre[k] == next[k]);
            }
        }
        assert(!is_matching_decrqss(matcher)(ev[i as int]));
        i = i + 1;
    }
    proof {
        lemma_find_first(ev, is_matching_decrqss(matcher), i as int);
        assert(ev.take(i as int) == ev);
    }
    if saw_valid {
        (ProbeStatus::Unsupported, None)
    } else {
        (ProbeStatus::Unknown, None)
    }
}

/// The payload contains one of `markers`.
pub open spec fn any_marker(payload: Seq<char>, markers: Seq<Seq<char>>) -> bool {
    exists|k: int| 0 <= k < markers.len() && contains_sub(payload, #[trigger] markers[k])
}

/// Payloads of the valid DECRQSS reports that contain one of `markers`, in
/// order.
pub open spec fn matched_payloads(events: Seq<EventView>, markers: Seq<Seq<char>>) -> Seq<
    Seq<char>,
>
    decreases events.len(),
{
    if events.len() == 0 {
        Seq::empty()
    } else {
        let rest = matched_payloads(events.drop_last(), markers);
        let e = events.last();
        if e is Decrqss && e->valid && any_marker(e->Decrqss_payload, markers) {
            rest.push(e->Decrqss_payload)
        } else {
            rest
        }
    }
}

/// Result of a probe that sends several forms of one setting: every
/// matching report, sorted and without repeats, joined with `, `.
pub open spec fn multi_outcome(events: Seq<EventView>, markers: Seq<Seq<char>>) -> (
    ProbeStatus,
    Option<Seq<char>>,
) {
    let matched = matched_payloads(events, markers);
    if matched.len() > 0 {
        (ProbeStatus::Supported, Some(join(sorted_distinct(matched), ", "@)))
    } else if any_valid_decrqss(events) {
        (ProbeStatus::Unsupported, None)
    } else {
        unknown()
    }
}

/// Whether `payload` contains one of `markers`.
fn any_marker_exec(payload: &[char], markers: &Vec<&'static str>) -> (r: bool)
    ensures
        r == any_marker(payload@, strs_view(markers@)),
{
    let ghost ms = strs_view(markers@);
    let mut k: usize = 0;
    while k < markers.len()
        invariant
            k <= markers.len(),
            ms == strs_view(markers@),
            forall|j: int| 0 <= j < k ==> !contains_sub(payload@, #[trigger] ms[j]),
        decreases markers.len() - k,
    {
        let m = chars_of(markers[k]);
        if contains_exec(payload, m.as_slice()) {
            assert(ms[k as int] == m@);
            return true;
        }
        k = k + 1;
    }
    false
}

/// Reads the replies to a probe that sends several forms of one setting.
pub fn interpret_multi(events: &[Event], markers: &Vec<&'static str>) -> (r: (
    ProbeStatus,
    Option<String>,
))
    ensures
        outcome_view(r) == multi_outcome(events_view(events@), strs_view(markers@)),
{
    let ghost ev = events_view(events@);
    let ghost ms = strs_view(markers@);
    let mut saw_valid = false;
    let mut matched: Vec<Vec<char>> = Vec::new();
    let mut i: usize = 0;
    while i < events.len()
        invariant
            i <= events.len(),
            ev == events_view(events@),
            ms == strs_view(markers@),
            matched@.map_values(|p: Vec<char>| p@) == matched_payloads(ev.take(i as int), ms),
            saw_valid == any_valid_decrqss(ev.take(i as int)),
        decreases events.len() - i,
    {
        let ghost pre = ev.take(i as int);
        let ghost next = ev.take(i + 1);
        proof {
            assert(next.drop_last() == pre);
            assert(next.last() == ev[i as int]);
        }
        if let Event::Decrqss { valid, payload } = &events[i] {
            if *valid {
                let p = chars_of(payload.as_str());
                if any_marker_exec(p.as_slice(), markers) {
                    let ghost before = matched@.map_values(|p: Vec<char>| p@);
                    matched.push(p);
                    assert(matched@.map_values(|p: Vec<char>| p@) =~= before.push(payload@));
                }
                saw_valid = true;
            }
        }
        proof {
            if any_valid_decrqss(next) {
                let k = choose|k: int| 0 <= k < next.len() && #[trigger] next[k] is Decrqss && next[k]->valid;
                if k < i {
                    assert(pre[k] == next[k]);
                }
            }
            if any_valid_decrqss(pre) {
                let k = choose|k: int| 0 <= k < pre.len() && #[trigger] pre[k] is Decrqss && pre[k]->valid;
                assert(pre[k] == next[k]);
            }
        }
        i = i + 1;
    }
    proof {
        assert(ev.take(i as int) == ev);
    }
    if matched.len() > 0 {
        let sorted = sort_distinct(&matched);
        let sep = chars_of(", ");
        let out = join_chars(&sorted, sep.as_slice());
        (ProbeStatus::Supported, Some(string_of(out.as_slice())))
    } else if saw_valid {
        (ProbeStatus::Unsupported, None)
    } else {
        (ProbeStatus::Unknown, None)
    }
}

// ---------------------------------------------------------------------------
// Cursor style
// ---------------------------------------------------------------------------

pub open spec fn is_cursor_report() -> spec_fn(EventView) -> bool {
    |e: EventView| e is Decrqss && e->valid && has_suffix(e->Decrqss_payload, " q"@)
}

/// The style number of a DECSCUSR report `[SP q] Ps SP q`.
pub open spec fn cursor_style_text(payload: Seq<char>) -> Seq<char> {
    let rest = payload.subrange(0, payload.len() - " q"@.len());
    trim(strip_leading(trim(rest), 'q'))
}

/// The name of a cursor style.
pub open spec fn cursor_style_label(style: Seq<char>) -> Seq<char> {
    if style == "0"@ {
        "default"@
    } else if style == "1"@ {
        "blinking block"@
    } else if style == "2"@ {
        "steady block"@
    } else if style == "3"@ {
        "blinking underline"@
    } else if style == "4"@ {
        "steady underline"@
    } else if style == "5"@ {
        "blinking bar"@
    } else if style == "6"@ {
        "steady bar"@
    } else {
        trim(style)
    }
}

/// Result of the cursor style probe: the first valid DECSCUSR report, as
/// `name (Ps)`; else unsupported when some valid report came back.
pub open spec fn cursor_outcome(events: Seq<EventView>) -> (ProbeStatus, Option<Seq<char>>) {
    match find_first(events, is_cursor_report()) {
        Some(i) => {
            let style = cursor_style_text(events[i]->Decrqss_payload);
            (ProbeStatus::Supported, Some(cursor_style_label(style) + " ("@ + style + ")"@))
        },
        None => if any_valid_decrqss(events) {
            (ProbeStatus::Unsupported, None)
        } else {
            unknown()
        },
    }
}

/// Law: the DECSCUSR cursor styles are named by shape and blinking: 1 and
/// 2 are a block, 3 and 4 an underline, 5 and 6 a bar; the odd styles
/// blink and the even ones are steady; style 0 is the default.
pub proof fn law_cursor_style_names(c: char)
    requires
        '0' <= c <= '6',
    ensures
        c == '0' ==> cursor_style_label(seq![c]) == "default"@,
        c != '0' ==> cursor_style_label(seq![c]) == (if (c as u32) % 2 == 1 {
            "blinking "@
        } else {
            "steady "@
        }) + (if c <= '2' {
            "block"@
        } else if c <= '4' {
            "underline"@
        } else {
            "bar"@
        }),
{
    reveal_strlit("0");
    reveal_strlit("1");
    reveal_strlit("2");
    reveal_strlit("3");
    reveal_strlit("4");
    reveal_strlit("5");
    reveal_strlit("6");
    reveal_strlit("default");
    reveal_strlit("blinking ");
    reveal_strlit("steady ");
    reveal_strlit("block");
    reveal_strlit("underline");
    reveal_strlit("bar");
    reveal_strlit("blinking block");
    reveal_strlit("steady block");
    reveal_strlit("blinking underline");
    reveal_strlit("steady underline");
    reveal_strlit("blinking bar");
    reveal_strlit("steady bar");
    let s = seq![c];
    assert(s[0] == c && s.len() == 1);
    assert("0"@[0] == '0' && "1"@[0] == '1' && "2"@[0] == '2' && "3"@[0] == '3');
    assert("4"@[0] == '4' && "5"@[0] == '5' && "6"@[0] == '6');
    if c != '0' {
        assert(s != "0"@);
    }
    if c != '1' {
        assert(s != "1"@);
    }
    if c != '2' {
        assert(s != "2"@);
    }
    if c != '3' {
        assert(s != "3"@);
    }
    if c != '4' {
        assert(s != "4"@);
    }
    if c != '5' {
        assert(s != "5"@);
    }
    if c == '0' {
        assert(s =~= "0"@);
    } else if c == '1' {
        assert(s =~= "1"@);
        assert("blinking "@ + "block"@ =~= "blinking block"@);
    } else if c == '2' {
        assert(s =~= "2"@);
        assert("steady "@ + "block"@ =~= "steady block"@);
    } else if c == '3' {
        assert(s =~= "3"@);
        assert("blinking "@ + "underline"@ =~= "blinking underline"@);
    } else if c == '4' {
        assert(s =~= "4"@);
        assert("steady "@ + "underline"@ =~= "steady underline"@);
    } else if c == '5' {
        assert(s =~= "5"@);
        assert("blinking "@ + "bar"@ =~= "blinking bar"@);
    } else {
        assert(c == '6');
        assert(s =~= "6"@);
        assert("steady "@ + "bar"@ =~= "steady bar"@);
    }
}

/// Law: the cursor style probe reads the first valid DECSCUSR report; a
/// report `Ps SP q` with a style digit `Ps` from 0 to 6 gives the style's
/// name followed by the digit in parentheses, as supported.
pub proof fn law_cursor_style_reading(events: Seq<EventView>, i: int, c: char)
    requires
        '0' <= c <= '6',
        0 <= i < events.len(),
        events[i] == (EventView::Decrqss { valid: true, payload: seq![c] + " q"@ }),
        forall|j: int| 0 <= j < i ==> !is_cursor_report()(#[trigger] events[j]),
    ensures
        cursor_outcome(events) == (
            ProbeStatus::Supported,
            Some(cursor_style_label(seq![c]) + " ("@ + seq![c] + ")"@),
        ),
{
    reveal_strlit(" q");
    let p = seq![c] + " q"@;
    assert(p.len() == 3 && p[0] == c && p[1] == ' ' && p[2] == 'q');
    assert(p.subrange(1, 3) =~= " q"@);
    assert(has_suffix(p, " q"@));
    lemma_find_first(events, is_cursor_report(), i);
    let rest = p.subrange(0, p.len() - " q"@.len());
    assert(rest =~= seq![c]);
    assert(!crate::text::is_white_space(c));
    assert(crate::text::trim_start(seq![c]) == seq![c]);
    assert(crate::text::trim_end(seq![c]) == seq![c]);
    assert(strip_leading(seq![c], 'q') == seq![c]);
    assert(cursor_style_text(p) == seq![c]);
}

/// The name of a cursor style.
fn cursor_style_label_exec(style: &[char]) -> (r: Vec<char>)
    ensures
        r@ == cursor_style_label(style@),
{
    if chars_eq(style, chars_of("0").as_slice()) {
        chars_of("default")
    } else if chars_eq(style, chars_of("1").as_slice()) {
        chars_of("blinking block")
    } else if chars_eq(style, chars_of("2").as_slice()) {
        chars_of("steady block")
    } else if chars_eq(style, chars_of("3").as_slice()) {
        chars_of("blinking underline")
    } else if chars_eq(style, chars_of("4").as_slice()) {
        chars_of("steady underline")
    } else if chars_eq(style, chars_of("5").as_slice()) {
        chars_of("blinking bar")
    } else if chars_eq(style, chars_of("6").as_slice()) {
        chars_of("steady bar")
    } else {
        trim_chars(style)
    }
}

/// Reads the replies to the cursor style probe.
pub fn interpret_cursor_style(events: &[Event]) -> (r: (ProbeStatus, Option<String>))
    ensures
        outcome_view(r) == cursor_outcome(events_view(events@)),
{
    let ghost ev = events_view(events@);
    let suffix = chars_of(" q");
    let mut i: usize = 0;
    while i < events.len()
        invariant
            i <= events.len(),
            ev == events_view(events@),
            suffix@ == " q"@,
            forall|j: int| 0 <= j < i ==> !is_cursor_report()(#[trigger] ev[j]),
        decreases events.len() - i,
    {
        if let Event::Decrqss { valid, payload } = &events[i] {
            let p = chars_of(payload.as_str());
            if *valid && has_suffix_exec(p.as_slice(), suffix.as_slice()) {
                proof {
                    lemma_find_first(ev, is_cursor_report(), i as int);
                }
                let rest = slice_chars(p.as_slice(), 0, p.len() - suffix.len());
                let t = trim_chars(rest.as_slice());
                let u = strip_leading_chars(t.as_slice(), 'q');
                let style = trim_chars(u.as_slice());
                let mut out = cursor_style_label_exec(style.as_slice());
                extend_str(&mut out, " (");
                extend_chars(&mut out, style.as_slice());
                extend_str(&mut out, ")");
                return (ProbeStatus::Supported, Some(string_of(out.as_slice())));
            }
        }
        assert(!is_cursor_report()(ev[i as int]));
        i = i + 1;
    }
    proof {
        lemma_find_first(ev, is_cursor_report(), i as int);
    }
    let saw_valid = any_valid_exec(events);
    if saw_valid {
        (ProbeStatus::Unsupported, None)
    } else {
        (ProbeStatus::Unknown, None)
    }
}

/// Whether some reply is a valid DECRQSS report.
fn any_valid_exec(events: &[Event]) -> (r: bool)
    ensures
        r == any_valid_decrqss(events_view(events@)),
{
    let ghost ev = events_view(events@);
    let mut i: usize = 0;
    while i < events.len()
        invariant
            i <= events.len(),
            ev == events_view(events@),
            forall|j: int| 0 <= j < i ==> !(#[trigger] ev[j] is Decrqss && ev[j]->valid),
        decreases events.len() - i,
    {
        if let Event::Decrqss { valid: true, .. } = &events[i] {
            assert(ev[i as int] is Decrqss && ev[i as int]->valid);
            return true;
        }
        i = i + 1;
    }
    false
}

// ---------------------------------------------------------------------------
// The probes
// ---------------------------------------------------------------------------

/// The query that sets an SGR state, reads it back with DECRQSS, then
/// resets it.
pub open spec fn decrqss_query(sgr_set: Seq<char>) -> Seq<u8> {
    encode_utf8(sgr_set + "\x1bP$qm\x1b\\\x1b[0m"@)
}

/// The DECRQSS queries for each of `forms`, in order.
pub open spec fn multi_query(forms: Seq<Seq<char>>) -> Seq<u8>
    decreases forms.len(),
{
    if forms.len() == 0 {
        Seq::empty()
    } else {
        multi_query(forms.drop_last()) + decrqss_query(forms.last())
    }
}

/// The query bytes for one SGR form.
fn decrqss_query_bytes(sgr_set: &str) -> (v: Vec<u8>)
    ensures
        v@ == decrqss_query(sgr_set@),
{
    let mut q: Vec<char> = chars_of(sgr_set);
    extend_str(&mut q, "\x1bP$qm\x1b\\\x1b[0m");
    let s = string_of(q.as_slice());
    str_bytes(s.as_str())
}

/// A DECRQSS probe that matches a simple SGR attribute strictly: `marker`
/// must be the only parameter, possibly after a reset.
pub fn decrqss_sgr_attr_probe(
    name: &'static str,
    category: Category,
    sgr_set: &'static str,
    marker: &'static str,
) -> (p: Probe)
    ensures
        p@ == plain_probe(
            name@,
            category,
            decrqss_query(sgr_set@),
            InterpreterView::SgrAttribute { marker: marker@ },
        ),
{
    Probe::new(name, category, decrqss_query_bytes(sgr_set), Interpreter::SgrAttribute { marker })
}

/// A DECRQSS probe that counts any report containing `marker` as support.
pub fn decrqss_probe(
    name: &'static str,
    category: Category,
    sgr_set: &'static str,
    marker: &'static str,
) -> (p: Probe)
    ensures
        p@ == plain_probe(
            name@,
            category,
            decrqss_query(sgr_set@),
            InterpreterView::SgrContains { marker: marker@ },
        ),
{
    Probe::new(name, category, decrqss_query_bytes(sgr_set), Interpreter::SgrContains { marker })
}

/// A probe that sends each SGR form with its own DECRQSS query and counts
/// any report containing one of `markers` as support.
pub fn decrqss_multi_probe(
    name: &'static str,
    category: Category,
    sgr_forms: &[&'static str],
    markers: &[&'static str],
) -> (p: Probe)
    ensures
        p@ == plain_probe(
            name@,
            category,
            multi_query(strs_view(sgr_forms@)),
            InterpreterView::SgrAnyForm { markers: strs_view(markers@) },
        ),
{
    let ghost forms = strs_view(sgr_forms@);
    let mut query: Vec<u8> = Vec::new();
    let mut k: usize = 0;
    while k < sgr_forms.len()
        invariant
            k <= sgr_forms.len(),
            forms == strs_view(sgr_forms@),
            query@ == multi_query(forms.take(k as int)),
        decreases sgr_forms.len() - k,
    {
        let part = decrqss_query_bytes(sgr_forms[k]);
        let ghost before = query@;
        let mut j: usize = 0;
        while j < part.len()
            invariant
                j <= part.len(),
                query@ == before + part@.subrange(0, j as int),
            decreases part.len() - j,
        {
            query.push(part[j]);
            j = j + 1;
            assert(part@.subrange(0, j as int) == part@.subrange(0, j - 1).push(part@[j - 1]));
        }
        proof {
            assert(part@.subrange(0, part@.len() as int) == part@);
            assert(forms.take(k + 1).drop_last() == forms.take(k as int));
            assert(forms.take(k + 1).last() == forms[k as int]);
        }
        k = k + 1;
    }
    assert(forms.take(sgr_forms.len() as int) == forms);
    let mut kept: Vec<&'static str> = Vec::new();
    let mut i: usize = 0;
    while i < markers.len()
        invariant
            i <= markers.len(),
            kept@ == markers@.subrange(0, i as int),
        decreases markers.len() - i,
    {
        kept.push(markers[i]);
        i = i + 1;
        assert(markers@.subrange(0, i as int) == markers@.subrange(0, i - 1).push(markers@[i - 1]));
    }
    assert(markers@.subrange(0, markers@.len() as int) == markers@);
    Probe::new(name, category, query, Interpreter::SgrAnyForm { markers: kept })
}

/// The query for an OSC color: `OSC index ; ? ST`.
pub open spec fn osc_color_query(index: u16) -> Seq<u8> {
    encode_utf8("\x1b]"@ + decimal(index as nat) + ";?\x1b\\"@)
}

/// A probe for the dynamic color `osc_index`.
pub fn osc_color_probe(name: &'static str, osc_index: u16) -> (p: Probe)
    ensures
        p@ == plain_probe(
            name@,
            Category::Colors,
            osc_color_query(osc_index),
            InterpreterView::OscColor { index: osc_index },
        ),
{
    let mut q: Vec<char> = Vec::new();
    extend_str(&mut q, "\x1b]");
    push_decimal(&mut q, osc_index as u64);
    extend_str(&mut q, ";?\x1b\\");
    let s = string_of(q.as_slice());
    Probe::new(name, Category::Colors, str_bytes(s.as_str()), Interpreter::OscColor { index: osc_index })
}

/// The color, styling and feature probes, in report order.
pub open spec fn colors_probes_spec() -> Seq<ProbeView> {
    seq![
        plain_probe("foreground-color"@, Category::Colors, osc_color_query(10), InterpreterView::OscColor { index: 10 }),
        plain_probe("background-color"@, Category::Colors, osc_color_query(11), InterpreterView::OscColor { index: 11 }),
        plain_probe("cursor-color"@, Category::Colors, osc_color_query(12), InterpreterView::OscColor { index: 12 }),
        plain_probe("selection-bg-color"@, Category::Colors, osc_color_query(17), InterpreterView::OscColor { index: 17 }),
        plain_probe("selection-fg-color"@, Category::Colors, osc_color_query(19), InterpreterView::OscColor { index: 19 }),
        plain_probe("palette-color"@, Category::Colors, encode_utf8("\x1b]4;1;?\x1b\\"@), InterpreterView::PaletteColor),
        plain_probe("dark-light-theme"@, Category::Colors, encode_utf8("\x1b]11;?\x1b\\"@), InterpreterView::DarkLightTheme),
        plain_probe("osc52-clipboard"@, Category::Features, encode_utf8("\x1b]52;c;?\x1b\\"@), InterpreterView::Osc52Clipboard),
        plain_probe(
            "true-color"@,
            Category::Colors,
            multi_query(seq!["\x1b[48;2;150;150;150m"@, "\x1b[48:2::150:150:150m"@, "\x1b[48:2:150:150:150m"@]),
            InterpreterView::SgrAnyForm { markers: seq!["150;150;150"@, "150:150:150"@] },
        ),
        plain_probe("styled-underline"@, Category::Styling, decrqss_query("\x1b[4:3m"@), InterpreterView::SgrContains { marker: "4:3"@ }),
        plain_probe(
            "underline-color"@,
            Category::Styling,
            multi_query(seq!["\x1b[58:2::170:170:170m"@, "\x1b[58:2:170:170:170m"@]),
            InterpreterView::SgrAnyForm { markers: seq!["170:170:170"@] },
        ),
        plain_probe("strikethrough"@, Category::Styling, decrqss_query("\x1b[9m"@), InterpreterView::SgrContains { marker: "9"@ }),
        plain_probe("overline"@, Category::Styling, decrqss_query("\x1b[53m"@), InterpreterView::SgrContains { marker: "53"@ }),
        plain_probe("italic"@, Category::Styling, decrqss_query("\x1b[3m"@), InterpreterView::SgrAttribute { marker: "3"@ }),
        plain_probe("dim"@, Category::Styling, decrqss_query("\x1b[2m"@), InterpreterView::SgrAttribute { marker: "2"@ }),
        plain_probe("blink"@, Category::Styling, decrqss_query("\x1b[5m"@), InterpreterView::SgrAttribute { marker: "5"@ }),
        plain_probe("reverse"@, Category::Styling, decrqss_query("\x1b[7m"@), InterpreterView::SgrAttribute { marker: "7"@ }),
        plain_probe("invisible"@, Category::Styling, decrqss_query("\x1b[8m"@), InterpreterView::SgrAttribute { marker: "8"@ }),
        plain_probe("double-underline"@, Category::Styling, encode_utf8("\x1b[21m\x1bP$qm\x1b\\\x1b[0m"@), InterpreterView::DoubleUnderline),
        plain_probe("cursor-style-report"@, Category::Styling, encode_utf8("\x1bP$q q\x1b\\"@), InterpreterView::CursorStyle),
    ]
}

/// The color, styling and feature probes.
pub fn probes() -> (v: Vec<Probe>)
    ensures
        crate::probe::probes_view(v@) == colors_probes_spec(),
{
    let mut v: Vec<Probe> = Vec::new();
    v.push(osc_color_probe("foreground-color", 10));
    v.push(osc_color_probe("background-color", 11));
    v.push(osc_color_probe("cursor-color", 12));
    v.push(osc_color_probe("selection-bg-color", 17));
    v.push(osc_color_probe("selection-fg-color", 19));
    // Query palette index 1 (red in standard ANSI palette)
    v.push(Probe::new("palette-color", Category::Colors, str_bytes("\x1b]4;1;?\x1b\\"), Interpreter::PaletteColor));
    v.push(Probe::new("dark-light-theme", Category::Colors, str_bytes("\x1b]11;?\x1b\\"), Interpreter::DarkLightTheme));
    v.push(Probe::new("osc52-clipboard", Category::Features, str_bytes("\x1b]52;c;?\x1b\\"), Interpreter::Osc52Clipboard));
    let true_color_forms: [&'static str; 3] = [
        "\x1b[48;2;150;150;150m", // semicolon (legacy, most compatible)
        "\x1b[48:2::150:150:150m", // 6-subparam colon (ITU T.416)
        "\x1b[48:2:150:150:150m", // 5-subparam colon (xterm+direct2)
    ];
    let true_color_markers: [&'static str; 2] = ["150;150;150", "150:150:150"];
    v.push(decrqss_multi_probe("true-color", Category::Colors, &true_color_forms, &true_color_markers));
    v.push(decrqss_probe("styled-underline", Category::Styling, "\x1b[4:3m", "4:3"));
    let underline_forms: [&'static str; 2] = [
        "\x1b[58:2::170:170:170m", // 6-subparam colon (ITU T.416)
        "\x1b[58:2:170:170:170m", // 5-subparam colon (xterm+direct2)
    ];
    let underline_markers: [&'static str; 1] = ["170:170:170"];
    v.push(decrqss_multi_probe("underline-color", Category::Styling, &underline_forms, &underline_markers));
    v.push(decrqss_probe("strikethrough", Category::Styling, "\x1b[9m", "9"));
    v.push(decrqss_probe("overline", Category::Styling, "\x1b[53m", "53"));
    v.push(decrqss_sgr_attr_probe("italic", Category::Styling, "\x1b[3m", "3"));
    v.push(decrqss_sgr_attr_probe("dim", Category::Styling, "\x1b[2m", "2"));
    v.push(decrqss_sgr_attr_probe("blink", Category::Styling, "\x1b[5m", "5"));
    v.push(decrqss_sgr_attr_probe("reverse", Category::Styling, "\x1b[7m", "7"));
    v.push(decrqss_sgr_attr_probe("invisible", Category::Styling, "\x1b[8m", "8"));
    // SGR 21 is "doubly underlined" per ECMA-48, but some terminals (e.g. foot)
    // normalize it to the modern 4:2 subparameter syntax and report back "4:2m".
    v.push(Probe::new("double-underline", Category::Styling, str_bytes("\x1b[21m\x1bP$qm\x1b\\\x1b[0m"), Interpreter::DoubleUnderline));
    // DECSCUSR cursor style query via DECRQSS: DCS $ q SP q ST
    v.push(Probe::new("cursor-style-report", Category::Styling, str_bytes("\x1bP$q q\x1b\\"), Interpreter::CursorStyle));
    proof {
        assert(strs_view(true_color_forms@) =~= seq!["\x1b[48;2;150;150;150m"@, "\x1b[48:2::150:150:150m"@, "\x1b[48:2:150:150:150m"@]);
        assert(strs_view(true_color_markers@) =~= seq!["150;150;150"@, "150:150:150"@]);
        assert(strs_view(underline_forms@) =~= seq!["\x1b[58:2::170:170:170m"@, "\x1b[58:2:170:170:170m"@]);
        assert(strs_view(underline_markers@) =~= seq!["170:170:170"@]);
    }
    assert(crate::probe::probes_view(v@) =~= colors_probes_spec());
    v
}

/// `normalize_ok`, computed.
pub fn normalize_safe(value: &str) -> (r: bool)
    ensures
        r == normalize_ok(value@),
{
    let v = chars_of(value);
    let prefix = chars_of("rgb:");
    if !has_prefix_exec(v.as_slice(), prefix.as_slice()) {
        return true;
    }
    let rest = slice_chars(v.as_slice(), prefix.len(), v.len());
    let parts = split_chars(rest.as_slice(), '/');
    proof {
        assert(parts@.map_values(|p: Vec<char>| p@).len() == parts@.len());
    }
    if parts.len() != 3 {
        return true;
    }
    proof {
        assert(parts@[0]@ == rgb_parts(value@)[0]);
        assert(parts@[1]@ == rgb_parts(value@)[1]);
        assert(parts@[2]@ == rgb_parts(value@)[2]);
    }
    cut2_exec(parts[0].as_slice()).is_some() && cut2_exec(parts[1].as_slice()).is_some()
        && cut2_exec(parts[2].as_slice()).is_some()
}

/// Whether reading the replies to the OSC color query for `index` (or, with
/// `None`, the palette query) stays clear of the panic `normalize_color`
/// leaves out.
pub fn color_safe(events: &[Event], index: Option<u16>) -> (r: bool)
    ensures
        index matches Some(i) ==> r == color_ok(events_view(events@), is_osc_index(i)),
        index is None ==> r == color_ok(events_view(events@), is_palette_one()),
{
    let ghost ev = events_view(events@);
    let ghost pred = match index {
        Some(i) => is_osc_index(i),
        None => is_palette_one(),
    };
    let one = chars_of("1");
    let mut i: usize = 0;
    while i < events.len()
        invariant
            i <= events.len(),
            ev == events_view(events@),
            one@ == "1"@,
            pred == (match index {
                Some(i) => is_osc_index(i),
                None => is_palette_one(),
            }),
            forall|j: int| 0 <= j < i ==> !pred(#[trigger] ev[j]),
        decreases events.len() - i,
    {
        if let Event::OscColor { index: idx, sub_index, value } = &events[i] {
            let hit = match index {
                Some(want) => *idx == want,
                None => *idx == 4 && match sub_index {
                    Some(sub) => {
                        let s = chars_of(sub.as_str());
                        chars_eq(s.as_slice(), one.as_slice())
                    },
                    None => false,
                },
            };
            if hit {
                proof {
                    lemma_find_first(ev, pred, i as int);
                }
                return normalize_safe(value.as_str());
            }
        }
        assert(!pred(ev[i as int]));
        i = i + 1;
    }
    proof {
        lemma_find_first(ev, pred, i as int);
    }
    true
}

} // verus!
