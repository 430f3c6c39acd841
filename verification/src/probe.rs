//! Probes: a query to send, and how to read the terminal's replies to it.
use vstd::prelude::*;
use crate::hex;
use crate::parser::{Event, EventView, events_view};
use crate::text;
use crate::text::{chars_eq, chars_of, push_chars};
use vstd::string::StringSliceAdditionalSpecFns;

verus! {

/// Groups of probes, in the order reports list them.
#[derive(Debug, Clone, Copy, PartialEq, Eq, Structural)]
pub enum Category {
    Identity,
    Modes,
    Keyboard,
    Graphics,
    Colors,
    Styling,
    Features,
    Geometry,
}

impl Category {
    /// Every category, in report order.
    pub const ALL: [Category; 8] = [
        Category::Identity,
        Category::Modes,
        Category::Keyboard,
        Category::Graphics,
        Category::Colors,
        Category::Styling,
        Category::Features,
        Category::Geometry,
    ];

    /// The category's name as it appears in reports and on the command line.
    pub open spec fn name_spec(self) -> Seq<char> {
        match self {
            Category::Identity => "identity"@,
            Category::Modes => "modes"@,
            Category::Keyboard => "keyboard"@,
            Category::Graphics => "graphics"@,
            Category::Colors => "colors"@,
            Category::Styling => "styling"@,
            Category::Features => "features"@,
            Category::Geometry => "geometry"@,
        }
    }

    /// The category's name.
    pub fn name(&self) -> (s: &'static str)
        ensures
            s@ == self.name_spec(),
    {
        match self {
            Category::Identity => "identity",
            Category::Modes => "modes",
            Category::Keyboard => "keyboard",
            Category::Graphics => "graphics",
            Category::Colors => "colors",
            Category::Styling => "styling",
            Category::Features => "features",
            Category::Geometry => "geometry",
        }
    }

    /// The category with the given name; an error naming `s` otherwise.
    pub fn from_name(s: &str) -> (r: Result<Category, String>)
        ensures
            r matches Ok(c) ==> c.name_spec() == s@,
            r is Err <==> (forall|c: Category| c.name_spec() != s@),
            r matches Err(e) ==> e@ == "unknown category: "@ + s@,
    {
        let cs = chars_of(s);
        let mut i: usize = 0;
        while i < 8
            invariant
                0 <= i <= 8,
                cs@ == s@,
                forall|k: int| 0 <= k < i ==> (#[trigger] Category::ALL[k]).name_spec() != s@,
            decreases 8 - i,
        {
            let c = Category::ALL[i];
            let n = chars_of(c.name());
            if chars_eq(n.as_slice(), cs.as_slice()) {
                return Ok(c);
            }
            i = i + 1;
        }
        proof {
            assert forall|c: Category| c.name_spec() != s@ by {
                lemma_all_categories(c);
            }
        }
        let mut e = String::new();
        let prefix = chars_of("unknown category: ");
        push_chars(&mut e, prefix.as_slice());
        push_chars(&mut e, cs.as_slice());
        Err(e)
    }
}

/// `c` occurs in `Category::ALL`.
pub open spec fn listed(c: Category) -> bool {
    exists|k: int| 0 <= k < 8 && Category::ALL[k] == c
}

/// Every category occurs in `Category::ALL`.
pub proof fn lemma_all_categories(c: Category)
    ensures
        listed(c),
{
    match c {
        Category::Identity => assert(Category::ALL[0] == c),
        Category::Modes => assert(Category::ALL[1] == c),
        Category::Keyboard => assert(Category::ALL[2] == c),
        Category::Graphics => assert(Category::ALL[3] == c),
        Category::Colors => assert(Category::ALL[4] == c),
        Category::Styling => assert(Category::ALL[5] == c),
        Category::Features => assert(Category::ALL[6] == c),
        Category::Geometry => assert(Category::ALL[7] == c),
    }
}

/// Law: `Category::ALL` lists every category exactly once.
pub proof fn law_all_categories_once()
    ensures
        forall|c: Category| #[trigger] listed(c),
        forall|i: int, j: int|
            0 <= i < 8 && 0 <= j < 8 && i != j ==> Category::ALL[i] != Category::ALL[j],
{
    assert forall|c: Category| #[trigger] listed(c) by {
        lemma_all_categories(c);
    }
}

/// Law: category names are distinct, so a name determines its category and
/// `from_name` undoes `name`.
pub proof fn law_category_names_distinct(a: Category, b: Category)
    ensures
        a.name_spec() == b.name_spec() ==> a == b,
{
    reveal_strlit("identity");
    reveal_strlit("modes");
    reveal_strlit("keyboard");
    reveal_strlit("graphics");
    reveal_strlit("colors");
    reveal_strlit("styling");
    reveal_strlit("features");
    reveal_strlit("geometry");
    if a.name_spec() == b.name_spec() && a != b {
        let x = a.name_spec();
        let y = b.name_spec();
        assert(x.len() == y.len());
        assert(x[0] == y[0]);
        assert(x[1] == y[1]);
    }
}

impl std::str::FromStr for Category {
    type Err = String;

    fn from_str(s: &str) -> (r: Result<Self, Self::Err>)
        ensures
            r matches Ok(c) ==> c.name_spec() == s@,
            r is Err <==> (forall|c: Category| c.name_spec() != s@),
            r matches Err(e) ==> e@ == "unknown category: "@ + s@,
    {
        Category::from_name(s)
    }
}

/// How a probe turned out.
#[derive(Debug, Clone, Copy, PartialEq, Eq, Structural)]
pub enum ProbeStatus {
    Supported,
    Unsupported,
    Unknown,
}

impl ProbeStatus {
    /// The status as reports show it.
    pub open spec fn name_spec(self) -> Seq<char> {
        match self {
            ProbeStatus::Supported => "supported"@,
            ProbeStatus::Unsupported => "unsupported"@,
            ProbeStatus::Unknown => "unknown"@,
        }
    }

    /// The status as reports show it.
    pub fn name(&self) -> (s: &'static str)
        ensures
            s@ == self.name_spec(),
    {
        match self {
            ProbeStatus::Supported => "supported",
            ProbeStatus::Unsupported => "unsupported",
            ProbeStatus::Unknown => "unknown",
        }
    }
}

/// The outcome of one probe.
#[derive(Debug, Clone)]
pub struct ProbeResult {
    pub name: String,
    pub label: Option<String>,
    pub category: Category,
    pub status: ProbeStatus,
    pub value: Option<String>,
    pub raw_query: Option<String>,
}

/// Model of a `ProbeResult`.
pub struct ProbeResultView {
    pub name: Seq<char>,
    pub label: Option<Seq<char>>,
    pub category: Category,
    pub status: ProbeStatus,
    pub value: Option<Seq<char>>,
    pub raw_query: Option<Seq<char>>,
}

impl View for ProbeResult {
    type V = ProbeResultView;

    open spec fn view(&self) -> ProbeResultView {
        ProbeResultView {
            name: self.name@,
            label: crate::parser::opt_text(self.label),
            category: self.category,
            status: self.status,
            value: crate::parser::opt_text(self.value),
            raw_query: crate::parser::opt_text(self.raw_query),
        }
    }
}

/// Models of a list of results.
pub open spec fn results_view(v: Seq<ProbeResult>) -> Seq<ProbeResultView> {
    v.map_values(|r: ProbeResult| r@)
}

/// The outcome of a probing session.
pub struct ProbeOutput {
    pub results: Vec<ProbeResult>,
    pub raw_response: Option<String>,
}

// ---------------------------------------------------------------------------
// Scanning replies
// ---------------------------------------------------------------------------

/// Index of the first event satisfying `p`.
pub open spec fn find_first(events: Seq<EventView>, p: spec_fn(EventView) -> bool) -> Option<int>
    decreases events.len(),
{
    if events.len() == 0 {
        None
    } else if p(events[0]) {
        Some(0)
    } else {
        match find_first(events.drop_first(), p) {
            Some(k) => Some(k + 1),
            None => None,
        }
    }
}

/// `find_first` is the first index whose event satisfies `p`.
pub proof fn lemma_find_first(events: Seq<EventView>, p: spec_fn(EventView) -> bool, k: int)
    requires
        0 <= k <= events.len(),
        forall|j: int| 0 <= j < k ==> !p(#[trigger] events[j]),
    ensures
        k < events.len() && p(events[k]) ==> find_first(events, p) == Some(k),
        k == events.len() ==> find_first(events, p) is None,
    decreases k,
{
    if k > 0 {
        let t = events.drop_first();
        assert forall|j: int| 0 <= j < k - 1 implies !p(#[trigger] t[j]) by {
            assert(t[j] == events[j + 1]);
        }
        lemma_find_first(t, p, k - 1);
        assert(!p(events[0]));
        if k < events.len() {
            assert(t[k - 1] == events[k]);
        }
    }
}

/// The result of a probe when nothing relevant came back.
pub open spec fn unknown() -> (ProbeStatus, Option<Seq<char>>) {
    (ProbeStatus::Unknown, None)
}

/// Model of an interpretation result.
pub open spec fn outcome_view(r: (ProbeStatus, Option<String>)) -> (ProbeStatus, Option<Seq<char>>) {
    (r.0, crate::parser::opt_text(r.1))
}

// ---------------------------------------------------------------------------
// Probes
// ---------------------------------------------------------------------------

/// How a probe reads the replies.
pub enum Interpreter {
    /// Primary device attributes, decoded.
    Da1,
    /// Secondary device attributes, decoded.
    Da2,
    /// Tertiary device attributes (unit id).
    Da3,
    /// XTVERSION name and version.
    XtVersion,
    /// XTGETTCAP reply for one capability.
    XtGetTcap { cap_name: &'static str },
    /// DECRPM report for one mode.
    ModeReport { mode: u16 },
    /// kitty keyboard protocol flags.
    KittyKeyboard,
    /// kitty graphics protocol reply.
    KittyGraphics,
    /// Sixel support, from DA1 and XTSMGRAPHICS.
    Sixel,
    /// A window size report (`CSI op ; a ; b t`), in cells or pixels.
    WindowSize { op: u16, cells: bool },
    /// A dynamic color (OSC 10, 11, ...).
    OscColor { index: u16 },
    /// Palette entry 1 (OSC 4).
    PaletteColor,
    /// Dark or light theme, from the background color's luminance.
    DarkLightTheme,
    /// OSC 52 clipboard access.
    Osc52Clipboard,
    /// A simple SGR attribute read back with DECRQSS, matched strictly.
    SgrAttribute { marker: &'static str },
    /// An SGR setting read back with DECRQSS, matched by substring.
    SgrContains { marker: &'static str },
    /// Several SGR forms of one setting read back with DECRQSS.
    SgrAnyForm { markers: Vec<&'static str> },
    /// Double underline (SGR 21, or its `4:2` form).
    DoubleUnderline,
    /// DECSCUSR cursor style read back with DECRQSS.
    CursorStyle,
}

/// Model of an `Interpreter`.
pub enum InterpreterView {
    Da1,
    Da2,
    Da3,
    XtVersion,
    XtGetTcap { cap_name: Seq<char> },
    ModeReport { mode: u16 },
    KittyKeyboard,
    KittyGraphics,
    Sixel,
    WindowSize { op: u16, cells: bool },
    OscColor { index: u16 },
    PaletteColor,
    DarkLightTheme,
    Osc52Clipboard,
    SgrAttribute { marker: Seq<char> },
    SgrContains { marker: Seq<char> },
    SgrAnyForm { markers: Seq<Seq<char>> },
    DoubleUnderline,
    CursorStyle,
}

/// Models of a list of texts.
pub open spec fn strs_view(v: Seq<&'static str>) -> Seq<Seq<char>> {
    v.map_values(|s: &'static str| s@)
}

impl View for Interpreter {
    type V = InterpreterView;

    open spec fn view(&self) -> InterpreterView {
        match self {
            Interpreter::Da1 => InterpreterView::Da1,
            Interpreter::Da2 => InterpreterView::Da2,
            Interpreter::Da3 => InterpreterView::Da3,
            Interpreter::XtVersion => InterpreterView::XtVersion,
            Interpreter::XtGetTcap { cap_name } => InterpreterView::XtGetTcap {
                cap_name: cap_name@,
            },
            Interpreter::ModeReport { mode } => InterpreterView::ModeReport { mode: *mode },
            Interpreter::KittyKeyboard => InterpreterView::KittyKeyboard,
            Interpreter::KittyGraphics => InterpreterView::KittyGraphics,
            Interpreter::Sixel => InterpreterView::Sixel,
            Interpreter::WindowSize { op, cells } => InterpreterView::WindowSize {
                op: *op,
                cells: *cells,
            },
            Interpreter::OscColor { index } => InterpreterView::OscColor { index: *index },
            Interpreter::PaletteColor => InterpreterView::PaletteColor,
            Interpreter::DarkLightTheme => InterpreterView::DarkLightTheme,
            Interpreter::Osc52Clipboard => InterpreterView::Osc52Clipboard,
            Interpreter::SgrAttribute { marker } => InterpreterView::SgrAttribute {
                marker: marker@,
            },
            Interpreter::SgrContains { marker } => InterpreterView::SgrContains {
                marker: marker@,
            },
            Interpreter::SgrAnyForm { markers } => InterpreterView::SgrAnyForm {
                markers: strs_view(markers@),
            },
            Interpreter::DoubleUnderline => InterpreterView::DoubleUnderline,
            Interpreter::CursorStyle => InterpreterView::CursorStyle,
        }
    }
}

/// A capability probe: the query sent to the terminal and how its replies
/// are read.
pub struct Probe {
    pub name: &'static str,
    pub label: Option<String>,
    pub category: Category,
    pub query: Vec<u8>,
    pub interpreter: Interpreter,
    /// The DA1 probe: its query is always sent last, by the session itself.
    pub is_sentinel: bool,
}

/// Model of a `Probe`.
pub struct ProbeView {
    pub name: Seq<char>,
    pub label: Option<Seq<char>>,
    pub category: Category,
    pub query: Seq<u8>,
    pub interpreter: InterpreterView,
    pub is_sentinel: bool,
}

impl View for Probe {
    type V = ProbeView;

    open spec fn view(&self) -> ProbeView {
        ProbeView {
            name: self.name@,
            label: crate::parser::opt_text(self.label),
            category: self.category,
            query: self.query@,
            interpreter: self.interpreter@,
            is_sentinel: self.is_sentinel,
        }
    }
}

/// Models of a list of probes.
pub open spec fn probes_view(v: Seq<Probe>) -> Seq<ProbeView> {
    v.map_values(|p: Probe| p@)
}

/// The model of an unlabelled, non-sentinel probe.
pub open spec fn plain_probe(
    name: Seq<char>,
    category: Category,
    query: Seq<u8>,
    interpreter: InterpreterView,
) -> ProbeView {
    ProbeView { name, label: None, category, query, interpreter, is_sentinel: false }
}

impl Probe {
    /// An unlabelled, non-sentinel probe.
    pub fn new(name: &'static str, category: Category, query: Vec<u8>, interpreter: Interpreter) -> (p:
        Probe)
        ensures
            p@ == plain_probe(name@, category, query@, interpreter@),
    {
        Probe { name, label: None, category, query, interpreter, is_sentinel: false }
    }
}

/// The UTF-8 bytes of a text, as a vector.
pub fn str_bytes(s: &str) -> (v: Vec<u8>)
    ensures
        v@ == s.spec_bytes(),
{
    vstd::slice::slice_to_vec(s.as_bytes())
}

// ---------------------------------------------------------------------------
// Reading replies
// ---------------------------------------------------------------------------

/// The result a probe reports for the replies `events`; `None` for the
/// dark/light theme probe, whose reading needs floating point and is not
/// done by the library.
pub open spec fn interpret_spec(k: InterpreterView, events: Seq<EventView>) -> Option<
    (ProbeStatus, Option<Seq<char>>),
> {
    match k {
        InterpreterView::Da1 => Some(crate::probes::identity::da1_outcome(events)),
        InterpreterView::Da2 => Some(crate::probes::identity::da2_outcome(events)),
        InterpreterView::Da3 => Some(crate::probes::identity::da3_outcome(events)),
        InterpreterView::XtVersion => Some(crate::probes::identity::xtversion_outcome(events)),
        InterpreterView::XtGetTcap { cap_name } => Some(crate::probes::identity::tcap_outcome(
            events,
            cap_name,
        )),
        InterpreterView::ModeReport { mode } => Some(crate::probes::modes::mode_outcome(events, mode)),
        InterpreterView::KittyKeyboard => Some(crate::probes::keyboard::kitty_keyboard_outcome(events)),
        InterpreterView::KittyGraphics => Some(crate::probes::graphics::kitty_graphics_outcome(events)),
        InterpreterView::Sixel => Some(crate::probes::graphics::sixel_outcome(events)),
        InterpreterView::WindowSize { op, cells } => Some(crate::probes::geometry::size_outcome(
            events,
            op,
            cells,
        )),
        InterpreterView::OscColor { index } => Some(crate::probes::colors::color_outcome(
            events,
            crate::probes::colors::is_osc_index(index),
        )),
        InterpreterView::PaletteColor => Some(crate::probes::colors::color_outcome(
            events,
            crate::probes::colors::is_palette_one(),
        )),
        InterpreterView::DarkLightTheme => None,
        InterpreterView::Osc52Clipboard => Some(crate::probes::colors::clipboard_outcome(events)),
        InterpreterView::SgrAttribute { marker } => Some(crate::probes::colors::decrqss_outcome(
            events,
            crate::probes::colors::attr_matcher(marker),
        )),
        InterpreterView::SgrContains { marker } => Some(crate::probes::colors::decrqss_outcome(
            events,
            crate::probes::colors::contains_matcher(marker),
        )),
        InterpreterView::SgrAnyForm { markers } => Some(crate::probes::colors::multi_outcome(
            events,
            markers,
        )),
        InterpreterView::DoubleUnderline => Some(crate::probes::colors::decrqss_outcome(
            events,
            crate::probes::colors::double_underline_matcher(),
        )),
        InterpreterView::CursorStyle => Some(crate::probes::colors::cursor_outcome(events)),
    }
}

/// The replies can be read here without a panic: the theme probe needs
/// floating point (its reading stands outside the library), and a color
/// reply must not be cut inside a character.
pub open spec fn interpret_ok(k: InterpreterView, events: Seq<EventView>) -> bool {
    match k {
        InterpreterView::DarkLightTheme => false,
        InterpreterView::OscColor { index } => crate::probes::colors::color_ok(
            events,
            crate::probes::colors::is_osc_index(index),
        ),
        InterpreterView::PaletteColor => crate::probes::colors::color_ok(
            events,
            crate::probes::colors::is_palette_one(),
        ),
        _ => true,
    }
}

/// Law: a probe that the library reads carries a value only when it
/// reports support.
pub proof fn law_value_only_when_supported(k: InterpreterView, events: Seq<EventView>)
    ensures
        interpret_spec(k, events) matches Some(o) ==> (o.0 != ProbeStatus::Supported ==> o.1 is None),
{
    match k {
        InterpreterView::ModeReport { mode } => {
            match find_first(events, crate::probes::modes::is_mode(mode)) {
                Some(i) => {},
                None => {},
            }
        },
        _ => {},
    }
}

/// Law: with no replies at all, every probe that the library reads reports
/// `unknown` and no value (the theme probe finds no background color then).
pub proof fn law_no_replies_unknown(k: InterpreterView)
    ensures
        interpret_spec(k, Seq::empty()) matches Some(o) ==> o == unknown(),
        crate::probes::colors::theme_background(Seq::empty()) is None,
{
    let e = Seq::<EventView>::empty();
    assert(crate::probes::colors::matched_payloads(e, Seq::empty()) == Seq::<Seq<char>>::empty());
    match k {
        InterpreterView::SgrAnyForm { markers } => {
            assert(crate::probes::colors::matched_payloads(e, markers).len() == 0);
        },
        _ => {},
    }
}

impl Probe {
    /// Reads the terminal's replies for this probe.
    pub fn interpret(&self, events: &[Event]) -> (r: (ProbeStatus, Option<String>))
        requires
            interpret_ok(self.interpreter@, events_view(events@)),
        ensures
            interpret_spec(self.interpreter@, events_view(events@)) == Some(outcome_view(r)),
            r.0 != ProbeStatus::Supported ==> r.1 is None,
            events@.len() == 0 ==> outcome_view(r) == unknown(),
    {
        proof {
            law_value_only_when_supported(self.interpreter@, events_view(events@));
            if events@.len() == 0 {
                assert(events_view(events@) =~= Seq::<EventView>::empty());
                law_no_replies_unknown(self.interpreter@);
            }
        }
        let r = match &self.interpreter {
            Interpreter::Da1 => crate::probes::identity::interpret_da1(events),
            Interpreter::Da2 => crate::probes::identity::interpret_da2(events),
            Interpreter::Da3 => crate::probes::identity::interpret_da3(events),
            Interpreter::XtVersion => crate::probes::identity::interpret_xtversion(events),
            Interpreter::XtGetTcap { cap_name } => crate::probes::identity::interpret_tcap(
                events,
                cap_name,
            ),
            Interpreter::ModeReport { mode } => crate::probes::modes::interpret_mode(events, *mode),
            Interpreter::KittyKeyboard => crate::probes::keyboard::interpret_kitty_keyboard(events),
            Interpreter::KittyGraphics => crate::probes::graphics::interpret_kitty_graphics(events),
            Interpreter::Sixel => crate::probes::graphics::interpret_sixel(events),
            Interpreter::WindowSize { op, cells } => crate::probes::geometry::interpret_size(
                events,
                *op,
                *cells,
            ),
            Interpreter::OscColor { index } => crate::probes::colors::interpret_osc_color(
                events,
                *index,
            ),
            Interpreter::PaletteColor => crate::probes::colors::interpret_palette(events),
            Interpreter::DarkLightTheme => (ProbeStatus::Unknown, None),
            Interpreter::Osc52Clipboard => crate::probes::colors::interpret_clipboard(events),
            Interpreter::SgrAttribute { marker } => crate::probes::colors::interpret_decrqss(
                events,
                &crate::probes::colors::SgrMatch::Attribute { marker },
            ),
            Interpreter::SgrContains { marker } => crate::probes::colors::interpret_decrqss(
                events,
                &crate::probes::colors::SgrMatch::Contains { marker },
            ),
            Interpreter::SgrAnyForm { markers } => crate::probes::colors::interpret_multi(
                events,
                markers,
            ),
            Interpreter::DoubleUnderline => crate::probes::colors::interpret_decrqss(
                events,
                &crate::probes::colors::SgrMatch::DoubleUnderline,
            ),
            Interpreter::CursorStyle => crate::probes::colors::interpret_cursor_style(events),
        };
        r
    }

    /// Whether `interpret` can read `events` for this probe (see
    /// `interpret_ok`).
    pub fn can_interpret(&self, events: &[Event]) -> (r: bool)
        ensures
            r == interpret_ok(self.interpreter@, events_view(events@)),
    {
        match &self.interpreter {
            Interpreter::DarkLightTheme => false,
            Interpreter::OscColor { index } => crate::probes::colors::color_safe(
                events,
                Some(*index),
            ),
            Interpreter::PaletteColor => crate::probes::colors::color_safe(events, None),
            _ => true,
        }
    }
}

/// All probes, in report order.
pub open spec fn all_probes_spec() -> Seq<ProbeView> {
    crate::probes::identity::identity_probes_spec() + crate::probes::modes::modes_probes_spec()
        + crate::probes::keyboard::keyboard_probes_spec()
        + crate::probes::graphics::graphics_probes_spec()
        + crate::probes::colors::colors_probes_spec()
        + crate::probes::geometry::geometry_probes_spec()
}

/// Every probe scoutty knows.
pub fn all_probes() -> (v: Vec<Probe>)
    ensures
        probes_view(v@) == all_probes_spec(),
{
    let mut probes: Vec<Probe> = Vec::new();
    let mut identity = crate::probes::identity::probes();
    let mut modes = crate::probes::modes::probes();
    let mut keyboard = crate::probes::keyboard::probes();
    let mut graphics = crate::probes::graphics::probes();
    let mut colors = crate::probes::colors::probes();
    let mut geometry = crate::probes::geometry::probes();
    let ghost a = identity@;
    let ghost b = modes@;
    let ghost c = keyboard@;
    let ghost d = graphics@;
    let ghost e = colors@;
    let ghost f = geometry@;
    probes.append(&mut identity);
    probes.append(&mut modes);
    probes.append(&mut keyboard);
    probes.append(&mut graphics);
    probes.append(&mut colors);
    probes.append(&mut geometry);
    assert(probes@ == Seq::<Probe>::empty() + a + b + c + d + e + f);
    assert(probes_view(probes@) =~= probes_view(a) + probes_view(b) + probes_view(c)
        + probes_view(d) + probes_view(e) + probes_view(f));
    probes
}

} // verus!
