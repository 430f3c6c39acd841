//! A probing session's decisions: which probes run, what is sent, and how
//! each probe's outcome is recorded.  The terminal I/O itself happens
//! outside the library.
use vstd::prelude::*;
use vstd::utf8::encode_utf8;
use crate::hex;
use crate::parser::{feed_spec, initial_model, opt_text, ParserModel, ResponseParser};
use crate::parser::{events_view, Event, EventView};
use crate::probe::{
    interpret_ok, interpret_spec, outcome_view, probes_view, results_view, str_bytes, Category,
    Interpreter, InterpreterView, Probe, ProbeResult, ProbeResultView, ProbeStatus, ProbeView,
};
use crate::text::{
    chars_eq, chars_of, extend_chars, extend_str, split_chars, split_on, string_from, string_of,
    trim, trim_chars,
};

verus! {

// ---------------------------------------------------------------------------
// The query
// ---------------------------------------------------------------------------

/// The queries of the non-sentinel probes, in order.
pub open spec fn queries_of(probes: Seq<ProbeView>) -> Seq<u8>
    decreases probes.len(),
{
    if probes.len() == 0 {
        Seq::empty()
    } else {
        queries_of(probes.drop_last()) + if probes.last().is_sentinel {
            Seq::empty()
        } else {
            probes.last().query
        }
    }
}

/// Everything a session sends: the probes' queries, then the DA1 request,
/// which every terminal answers and so marks the end of the replies.
pub open spec fn session_query(probes: Seq<ProbeView>) -> Seq<u8> {
    queries_of(probes) + encode_utf8("\x1b[c"@)
}

/// The bytes to send for `probes`: non-sentinel queries first, the DA1
/// sentinel last.
pub fn build_query(probes: &[Probe]) -> (q: Vec<u8>)
    ensures
        q@ == session_query(probes_view(probes@)),
{
    let ghost pv = probes_view(probes@);
    let mut q: Vec<u8> = Vec::new();
    let mut i: usize = 0;
    while i < probes.len()
        invariant
            i <= probes.len(),
            pv == probes_view(probes@),
            q@ == queries_of(pv.take(i as int)),
        decreases probes.len() - i,
    {
        let probe = &probes[i];
        proof {
            assert(pv.take(i + 1).drop_last() == pv.take(i as int));
            assert(pv.take(i + 1).last() == pv[i as int]);
        }
        if !probe.is_sentinel {
            let ghost before = q@;
            let mut j: usize = 0;
            while j < probe.query.len()
                invariant
                    j <= probe.query.len(),
                    q@ == before + probe.query@.subrange(0, j as int),
                decreases probe.query.len() - j,
            {
                q.push(probe.query[j]);
                j = j + 1;
                assert(probe.query@.subrange(0, j as int) == probe.query@.subrange(0, j - 1).push(
                    probe.query@[j - 1],
                ));
            }
            assert(probe.query@.subrange(0, probe.query@.len() as int) == probe.query@);
        } else {
            assert(q@ == q@ + Seq::<u8>::empty());
        }
        i = i + 1;
    }
    assert(pv.take(probes.len() as int) == pv);
    // DA1 sentinel always goes last
    let mut da1 = str_bytes("\x1b[c");
    let ghost body = q@;
    q.append(&mut da1);
    q
}

// ---------------------------------------------------------------------------
// Results
// ---------------------------------------------------------------------------

/// The recorded outcome of `probe`.
pub open spec fn result_spec(
    probe: ProbeView,
    status: ProbeStatus,
    value: Option<Seq<char>>,
    raw: bool,
) -> ProbeResultView {
    ProbeResultView {
        name: probe.name,
        label: probe.label,
        category: probe.category,
        status,
        value,
        raw_query: if raw {
            Some(hex::encode_spec(probe.query))
        } else {
            None
        },
    }
}

/// Records the outcome of `probe`; with `raw`, also its query in hex.
pub fn probe_result(probe: &Probe, status: ProbeStatus, value: Option<String>, raw: bool) -> (r:
    ProbeResult)
    ensures
        r@ == result_spec(probe@, status, opt_text(value), raw),
{
    let label = match &probe.label {
        Some(l) => Some(l.clone()),
        None => None,
    };
    ProbeResult {
        name: string_from(probe.name),
        label,
        category: probe.category,
        status,
        value,
        raw_query: if raw {
            Some(hex::encode(probe.query.as_slice()))
        } else {
            None
        },
    }
}

/// The outcome of `probe` for `events`: what the library reads, or for the
/// dark/light theme probe the outcome `theme` read outside it.
pub open spec fn outcome_of(
    probe: ProbeView,
    events: Seq<EventView>,
    theme: (ProbeStatus, Option<Seq<char>>),
) -> (ProbeStatus, Option<Seq<char>>) {
    match interpret_spec(probe.interpreter, events) {
        Some(o) => o,
        None => theme,
    }
}

/// Every probe's replies can be read here (the theme probe's are read
/// outside the library).
pub open spec fn all_readable(probes: Seq<ProbeView>, events: Seq<EventView>) -> bool {
    forall|i: int|
        0 <= i < probes.len() && !(probes[i].interpreter is DarkLightTheme) ==> interpret_ok(
            #[trigger] probes[i].interpreter,
            events,
        )
}

/// The recorded results of `probes`, in order.
pub open spec fn results_spec(
    probes: Seq<ProbeView>,
    events: Seq<EventView>,
    theme: (ProbeStatus, Option<Seq<char>>),
    raw: bool,
) -> Seq<ProbeResultView> {
    Seq::new(
        probes.len(),
        |i: int|
            {
                let o = outcome_of(probes[i], events, theme);
                result_spec(probes[i], o.0, o.1, raw)
            },
    )
}

/// Reads the replies for every probe and records the results in order; the
/// dark/light theme probe gets `theme`, its outcome as read outside the
/// library.
pub fn collect_results(
    probes: &[Probe],
    events: &[Event],
    theme: &(ProbeStatus, Option<String>),
    raw: bool,
) -> (r: Vec<ProbeResult>)
    requires
        all_readable(probes_view(probes@), events_view(events@)),
    ensures
        results_view(r@) == results_spec(
            probes_view(probes@),
            events_view(events@),
            outcome_view(*theme),
            raw,
        ),
{
    let ghost pv = probes_view(probes@);
    let ghost ev = events_view(events@);
    let ghost want = results_spec(pv, ev, outcome_view(*theme), raw);
    let mut out: Vec<ProbeResult> = Vec::new();
    let mut i: usize = 0;
    while i < probes.len()
        invariant
            i <= probes.len(),
            pv == probes_view(probes@),
            ev == events_view(events@),
            want == results_spec(pv, ev, outcome_view(*theme), raw),
            all_readable(pv, ev),
            results_view(out@) == want.take(i as int),
        decreases probes.len() - i,
    {
        let probe = &probes[i];
        assert(pv[i as int] == probe@);
        let (status, value) = if matches!(probe.interpreter, Interpreter::DarkLightTheme) {
            let value = match &theme.1 {
                Some(v) => Some(v.clone()),
                None => None,
            };
            (theme.0, value)
        } else {
            assert(interpret_ok(pv[i as int].interpreter, ev));
            probe.interpret(events)
        };
        let result = probe_result(probe, status, value, raw);
        let ghost before = results_view(out@);
        out.push(result);
        proof {
            assert(results_view(out@) =~= before.push(want[i as int]));
            assert(want.take(i + 1) =~= want.take(i as int).push(want[i as int]));
        }
        i = i + 1;
    }
    assert(want.take(probes.len() as int) =~= want);
    out
}

/// The session's raw reply bytes in hex, when `raw` is asked for.
pub fn raw_response(bytes: &[u8], raw: bool) -> (r: Option<String>)
    ensures
        opt_text(r) == (if raw {
            Some(hex::encode_spec(bytes@))
        } else {
            None
        }),
{
    if raw {
        Some(hex::encode(bytes))
    } else {
        None
    }
}

// ---------------------------------------------------------------------------
// Selecting probes
// ---------------------------------------------------------------------------

/// Why no probes could be selected.
pub enum SelectError {
    /// A requested probe name is not known.
    UnknownProbe { name: String },
    /// A requested category is not known; the message names it.
    BadCategory { message: String },
    /// The selection is empty.
    NoneSelected,
}

/// Model of a `SelectError`.
pub enum SelectErrorView {
    UnknownProbe { name: Seq<char> },
    BadCategory { message: Seq<char> },
    NoneSelected,
}

impl View for SelectError {
    type V = SelectErrorView;

    open spec fn view(&self) -> SelectErrorView {
        match self {
            SelectError::UnknownProbe { name } => SelectErrorView::UnknownProbe { name: name@ },
            SelectError::BadCategory { message } => SelectErrorView::BadCategory {
                message: message@,
            },
            SelectError::NoneSelected => SelectErrorView::NoneSelected,
        }
    }
}

/// The message shown for a selection error.
pub open spec fn select_message(e: SelectErrorView) -> Seq<char> {
    match e {
        SelectErrorView::UnknownProbe { name } => "unknown probe '"@ + name + "'"@,
        SelectErrorView::BadCategory { message } => message,
        SelectErrorView::NoneSelected => "no probes selected"@,
    }
}

impl SelectError {
    /// The message shown for this error.
    pub fn message(&self) -> (s: String)
        ensures
            s@ == select_message(self@),
    {
        match self {
            SelectError::UnknownProbe { name } => {
                let mut out: Vec<char> = chars_of("unknown probe '");
                extend_str(&mut out, name.as_str());
                extend_str(&mut out, "'");
                string_of(out.as_slice())
            },
            SelectError::BadCategory { message } => message.clone(),
            SelectError::NoneSelected => string_from("no probes selected"),
        }
    }
}

/// Some probe is called `name`.
pub open spec fn probe_known(all: Seq<ProbeView>, name: Seq<char>) -> bool {
    exists|i: int| 0 <= i < all.len() && (#[trigger] all[i]).name == name
}

/// The first requested name that no probe has.
pub open spec fn first_unknown(all: Seq<ProbeView>, names: Seq<Seq<char>>) -> Option<Seq<char>>
    decreases names.len(),
{
    if names.len() == 0 {
        None
    } else if !probe_known(all, names[0]) {
        Some(names[0])
    } else {
        first_unknown(all, names.drop_first())
    }
}

/// The probes of `all` that `keep` accepts, in order.
pub open spec fn keep_probes(all: Seq<ProbeView>, keep: spec_fn(ProbeView) -> bool) -> Seq<
    ProbeView,
>
    decreases all.len(),
{
    if all.len() == 0 {
        Seq::empty()
    } else {
        let rest = keep_probes(all.drop_last(), keep);
        if keep(all.last()) {
            rest.push(all.last())
        } else {
            rest
        }
    }
}

pub open spec fn named_in(names: Seq<Seq<char>>) -> spec_fn(ProbeView) -> bool {
    |p: ProbeView| names.contains(p.name)
}

pub open spec fn category_in(cats: Seq<Category>) -> spec_fn(ProbeView) -> bool {
    |p: ProbeView| cats.contains(p.category)
}

/// The category called `s`, if any.
pub open spec fn category_named(s: Seq<char>) -> Option<Category> {
    if exists|c: Category| c.name_spec() == s {
        Some(choose|c: Category| c.name_spec() == s)
    } else {
        None
    }
}

/// The categories of a comma-separated list, each trimmed; the first piece
/// that names no category is an error.
pub open spec fn parse_categories(parts: Seq<Seq<char>>) -> Result<Seq<Category>, Seq<char>>
    decreases parts.len(),
{
    if parts.len() == 0 {
        Ok(Seq::empty())
    } else {
        match parse_categories(parts.drop_last()) {
            Err(e) => Err(e),
            Ok(cs) => match category_named(trim(parts.last())) {
                Some(c) => Ok(cs.push(c)),
                None => Err("unknown category: "@ + trim(parts.last())),
            },
        }
    }
}

/// The selection before the emptiness check: named probes when any names
/// are given, else the listed categories, else everything.
pub open spec fn choose_probes(
    all: Seq<ProbeView>,
    names: Seq<Seq<char>>,
    categories: Option<Seq<char>>,
) -> Result<Seq<ProbeView>, SelectErrorView> {
    if names.len() > 0 {
        match first_unknown(all, names) {
            Some(n) => Err(SelectErrorView::UnknownProbe { name: n }),
            None => Ok(keep_probes(all, named_in(names))),
        }
    } else {
        match categories {
            Some(c) => match parse_categories(split_on(c, ',')) {
                Err(m) => Err(SelectErrorView::BadCategory { message: m }),
                Ok(cs) => Ok(keep_probes(all, category_in(cs))),
            },
            None => Ok(all),
        }
    }
}

/// Which probes a session runs.
pub open spec fn select_spec(
    all: Seq<ProbeView>,
    names: Seq<Seq<char>>,
    categories: Option<Seq<char>>,
) -> Result<Seq<ProbeView>, SelectErrorView> {
    match choose_probes(all, names, categories) {
        Ok(v) => if v.len() == 0 {
            Err(SelectErrorView::NoneSelected)
        } else {
            Ok(v)
        },
        Err(e) => Err(e),
    }
}

/// Models of a list of names.
pub open spec fn names_view(names: Seq<String>) -> Seq<Seq<char>> {
    names.map_values(|n: String| n@)
}

/// Model of an optional text.
pub open spec fn opt_str_view(s: Option<&str>) -> Option<Seq<char>> {
    match s {
        Some(t) => Some(t@),
        None => None,
    }
}

/// Whether some probe of `all` is called `name`.
fn probe_known_exec(all: &Vec<Probe>, name: &[char]) -> (r: bool)
    ensures
        r == probe_known(probes_view(all@), name@),
{
    let ghost pv = probes_view(all@);
    let mut i: usize = 0;
    while i < all.len()
        invariant
            i <= all.len(),
            pv == probes_view(all@),
            forall|k: int| 0 <= k < i ==> (#[trigger] pv[k]).name != name@,
        decreases all.len() - i,
    {
        let n = chars_of(all[i].name);
        if chars_eq(n.as_slice(), name) {
            assert(pv[i as int].name == name@);
            return true;
        }
        i = i + 1;
    }
    false
}

/// Whether `name` is one of `names`.
fn name_listed(names: &Vec<Vec<char>>, name: &[char]) -> (r: bool)
    ensures
        r == names@.map_values(|n: Vec<char>| n@).contains(name@),
{
    let ghost nv = names@.map_values(|n: Vec<char>| n@);
    let mut i: usize = 0;
    while i < names.len()
        invariant
            i <= names.len(),
            nv == names@.map_values(|n: Vec<char>| n@),
            forall|k: int| 0 <= k < i ==> nv[k] != name@,
        decreases names.len() - i,
    {
        if chars_eq(names[i].as_slice(), name) {
            assert(nv[i as int] == name@);
            return true;
        }
        i = i + 1;
    }
    false
}

/// Whether `c` is one of `cats`.
fn category_listed(cats: &Vec<Category>, c: Category) -> (r: bool)
    ensures
        r == cats@.contains(c),
{
    let mut i: usize = 0;
    while i < cats.len()
        invariant
            i <= cats.len(),
            forall|k: int| 0 <= k < i ==> cats@[k] != c,
        decreases cats.len() - i,
    {
        if cats[i] == c {
            return true;
        }
        i = i + 1;
    }
    false
}

/// Which probes a filter keeps.
enum Filter<'a> {
    Names { names: &'a Vec<Vec<char>> },
    Categories { cats: &'a Vec<Category> },
}

spec fn filter_pred(f: Filter) -> spec_fn(ProbeView) -> bool {
    match f {
        Filter::Names { names } => named_in(names@.map_values(|n: Vec<char>| n@)),
        Filter::Categories { cats } => category_in(cats@),
    }
}

/// The probes of `all` that `f` keeps, in the order of `all`.
fn keep(all: Vec<Probe>, f: &Filter) -> (r: Vec<Probe>)
    ensures
        probes_view(r@) == keep_probes(probes_view(all@), filter_pred(*f)),
{
    let ghost pv = probes_view(all@);
    let ghost pred = filter_pred(*f);
    let ghost total = all@.len();
    let mut rest = all;
    let mut out: Vec<Probe> = Vec::new();
    assert(pv.subrange(0, total as int) == pv);
    while rest.len() > 0
        invariant
            total == pv.len(),
            rest@.len() <= total,
            pred == filter_pred(*f),
            probes_view(rest@) == pv.subrange(total - rest@.len(), total as int),
            probes_view(out@) == keep_probes(pv.take(total - rest@.len()), pred),
        decreases rest@.len(),
    {
        let ghost k = total - rest@.len();
        let ghost before = rest@;
        let ghost before_out = out@;
        let p = rest.remove(0);
        proof {
            assert(probes_view(before)[0] == p@);
            assert(pv.subrange(k, total as int)[0] == pv[k]);
            assert(pv.take(k + 1).drop_last() == pv.take(k));
            assert(pv.take(k + 1).last() == pv[k]);
            assert forall|j: int| 0 <= j < rest@.len() implies #[trigger] probes_view(rest@)[j]
                == pv.subrange(k + 1, total as int)[j] by {
                assert(rest@[j] == before[j + 1]);
                assert(probes_view(before)[j + 1] == pv.subrange(k, total as int)[j + 1]);
            }
            assert(probes_view(rest@) =~= pv.subrange(k + 1, total as int));
        }
        let kept = match f {
            Filter::Names { names } => {
                let n = chars_of(p.name);
                name_listed(names, n.as_slice())
            },
            Filter::Categories { cats } => category_listed(cats, p.category),
        };
        if kept {
            out.push(p);
            assert(probes_view(out@) =~= probes_view(before_out).push(p@));
        }
    }
    assert(pv.take(total as int) == pv);
    out
}

/// The first requested name that no probe has.
fn first_unknown_exec(all: &Vec<Probe>, names: &Vec<Vec<char>>) -> (r: Option<usize>)
    ensures
        r matches Some(i) ==> i < names@.len() && first_unknown(
            probes_view(all@),
            names@.map_values(|n: Vec<char>| n@),
        ) == Some(names@[i as int]@),
        r is None ==> first_unknown(probes_view(all@), names@.map_values(|n: Vec<char>| n@))
            is None,
{
    let ghost nv = names@.map_values(|n: Vec<char>| n@);
    let ghost pv = probes_view(all@);
    let mut i: usize = 0;
    assert(nv.subrange(0, nv.len() as int) == nv);
    while i < names.len()
        invariant
            i <= names.len(),
            nv == names@.map_values(|n: Vec<char>| n@),
            pv == probes_view(all@),
            first_unknown(pv, nv) == first_unknown(pv, nv.subrange(i as int, nv.len() as int)),
        decreases names.len() - i,
    {
        let ghost s = nv.subrange(i as int, nv.len() as int);
        assert(s[0] == nv[i as int]);
        if !probe_known_exec(all, names[i].as_slice()) {
            return Some(i);
        }
        assert(s.drop_first() == nv.subrange(i + 1, nv.len() as int));
        i = i + 1;
    }
    assert(nv.subrange(i as int, nv.len() as int).len() == 0);
    None
}

/// The categories of a comma-separated list.
fn parse_categories_exec(list: &str) -> (r: Result<Vec<Category>, String>)
    ensures
        r matches Ok(cs) ==> parse_categories(split_on(list@, ',')) == Ok::<Seq<Category>, Seq<char>>(cs@),
        r matches Err(m) ==> parse_categories(split_on(list@, ',')) == Err::<Seq<Category>, Seq<char>>(m@),
{
    let cs = chars_of(list);
    let parts = split_chars(cs.as_slice(), ',');
    let ghost pv = parts@.map_values(|p: Vec<char>| p@);
    let mut out: Vec<Category> = Vec::new();
    let mut i: usize = 0;
    while i < parts.len()
        invariant
            i <= parts.len(),
            pv == parts@.map_values(|p: Vec<char>| p@),
            pv == split_on(list@, ','),
            parse_categories(pv.take(i as int)) == Ok::<Seq<Category>, Seq<char>>(out@),
        decreases parts.len() - i,
    {
        proof {
            assert(pv.take(i + 1).drop_last() == pv.take(i as int));
            assert(pv.take(i + 1).last() == pv[i as int]);
        }
        let piece = trim_chars(parts[i].as_slice());
        let text = string_of(piece.as_slice());
        match Category::from_name(text.as_str()) {
            Ok(c) => {
                proof {
                    assert(exists|d: Category| d.name_spec() == trim(pv[i as int]));
                    let d = choose|d: Category| d.name_spec() == trim(pv[i as int]);
                    crate::probe::law_category_names_distinct(c, d);
                }
                out.push(c);
            },
            Err(m) => {
                proof {
                    assert(!(exists|d: Category| d.name_spec() == trim(pv[i as int])));
                    lemma_parse_categories_error(pv, i as int);
                }
                return Err(m);
            },
        }
        i = i + 1;
    }
    assert(pv.take(parts.len() as int) == pv);
    Ok(out)
}

/// An error at piece `i` is the error of the whole list.
proof fn lemma_parse_categories_error(parts: Seq<Seq<char>>, i: int)
    requires
        0 <= i < parts.len(),
        parse_categories(parts.take(i)) is Ok,
        category_named(trim(parts[i])) is None,
    ensures
        parse_categories(parts) == Err::<Seq<Category>, Seq<char>>("unknown category: "@ + trim(
            parts[i],
        )),
    decreases parts.len() - i,
{
    if i + 1 == parts.len() {
        assert(parts.take(i + 1) == parts);
        assert(parts.drop_last() == parts.take(i));
    } else {
        assert(parts.drop_last().take(i) == parts.take(i));
        lemma_parse_categories_error(parts.drop_last(), i);
        assert(parts.drop_last()[i] == parts[i]);
    }
}

/// Which probes to run: the probes named in `names` when any are given
/// (every name must exist), else those in the comma-separated
/// `categories`, else all of them; an empty selection is an error.
pub fn select_probes(all: Vec<Probe>, names: &Vec<String>, categories: Option<&str>) -> (r: Result<
    Vec<Probe>,
    SelectError,
>)
    ensures
        r matches Ok(v) ==> select_spec(probes_view(all@), names_view(names@), opt_str_view(categories))
            == Ok::<Seq<ProbeView>, SelectErrorView>(probes_view(v@)),
        r matches Err(e) ==> select_spec(probes_view(all@), names_view(names@), opt_str_view(categories))
            == Err::<Seq<ProbeView>, SelectErrorView>(e@),
{
    let ghost pv = probes_view(all@);
    let mut name_chars: Vec<Vec<char>> = Vec::new();
    let mut i: usize = 0;
    while i < names.len()
        invariant
            i <= names.len(),
            name_chars@.len() == i,
            forall|k: int| 0 <= k < i ==> (#[trigger] name_chars@[k])@ == names@[k]@,
        decreases names.len() - i,
    {
        name_chars.push(chars_of(names[i].as_str()));
        i = i + 1;
    }
    assert(name_chars@.map_values(|n: Vec<char>| n@) =~= names_view(names@));
    let chosen: Vec<Probe> = if names.len() > 0 {
        match first_unknown_exec(&all, &name_chars) {
            Some(k) => {
                return Err(SelectError::UnknownProbe { name: names[k].clone() });
            },
            None => keep(all, &Filter::Names { names: &name_chars }),
        }
    } else {
        match categories {
            Some(list) => match parse_categories_exec(list) {
                Ok(cats) => keep(all, &Filter::Categories { cats: &cats }),
                Err(m) => {
                    return Err(SelectError::BadCategory { message: m });
                },
            },
            None => all,
        }
    };
    if chosen.len() == 0 {
        Err(SelectError::NoneSelected)
    } else {
        Ok(chosen)
    }
}

// ---------------------------------------------------------------------------
// Reading the replies
// ---------------------------------------------------------------------------

/// Where a session is in reading the terminal's replies.
#[derive(Debug, Clone, Copy, PartialEq, Eq, Structural)]
pub enum Phase {
    /// Reading until the DA1 reply (the sentinel) arrives or the wait for
    /// it times out.
    AwaitSentinel,
    /// Reading what is still arriving (slow replies such as OSC 52), until
    /// the line goes quiet.
    Drain,
    /// Done reading.
    Done,
}

/// The phase after a read: an empty read (a timeout) ends the current
/// phase; in the first phase, the arrival of the sentinel ends it too.
pub open spec fn next_phase(phase: Phase, read_empty: bool, has_da1: bool) -> Phase {
    match phase {
        Phase::AwaitSentinel => if read_empty || has_da1 {
            Phase::Drain
        } else {
            Phase::AwaitSentinel
        },
        Phase::Drain => if read_empty {
            Phase::Done
        } else {
            Phase::Drain
        },
        Phase::Done => Phase::Done,
    }
}

/// How far along a phase is.
pub open spec fn phase_rank(p: Phase) -> int {
    match p {
        Phase::AwaitSentinel => 0,
        Phase::Drain => 1,
        Phase::Done => 2,
    }
}

/// Law: a session never goes back to an earlier phase, a read that times
/// out always moves it on until it is done, and once done it stays done.
pub proof fn law_phases_advance(phase: Phase, read_empty: bool, has_da1: bool)
    ensures
        phase_rank(next_phase(phase, read_empty, has_da1)) >= phase_rank(phase),
        read_empty && phase != Phase::Done ==> phase_rank(next_phase(phase, read_empty, has_da1))
            == phase_rank(phase) + 1,
        phase == Phase::Done ==> next_phase(phase, read_empty, has_da1) == Phase::Done,
{
}

/// The reading side of a probing session: the reply parser and the phase.
pub struct Session {
    parser: ResponseParser,
    phase: Phase,
}

impl Session {
    /// The session's parser.
    pub closed spec fn parser_spec(&self) -> ResponseParser {
        self.parser
    }

    /// The session's phase.
    pub closed spec fn phase_spec(&self) -> Phase {
        self.phase
    }

    /// Well-formedness: the parser's.
    pub open spec fn wf(&self) -> bool {
        self.parser_spec().wf()
    }

    /// A session that has read nothing yet and waits for the sentinel.
    pub fn new() -> (s: Session)
        ensures
            s.wf(),
            s.phase_spec() == Phase::AwaitSentinel,
            s.parser_spec().model() == initial_model(),
            s.parser_spec().raw() == Seq::<u8>::empty(),
    {
        Session { parser: ResponseParser::new(), phase: Phase::AwaitSentinel }
    }

    /// Takes the result of one read (empty on a timeout) and returns the
    /// phase the session is in afterwards.
    pub fn on_read(&mut self, bytes: &[u8]) -> (phase: Phase)
        requires
            old(self).wf(),
        ensures
            final(self).wf(),
            phase == final(self).phase_spec(),
            bytes@.len() == 0 ==> final(self).parser_spec() == old(self).parser_spec(),
            bytes@.len() > 0 ==> final(self).parser_spec().model() == feed_spec(
                old(self).parser_spec().model(),
                bytes@,
            ) && final(self).parser_spec().raw() == old(self).parser_spec().raw() + bytes@,
            phase == next_phase(
                old(self).phase_spec(),
                bytes@.len() == 0,
                final(self).parser_spec().model().state.has_da1,
            ),
    {
        if bytes.len() > 0 {
            self.parser.feed(bytes);
        }
        let has_da1 = self.parser.has_da1();
        let next = match self.phase {
            Phase::AwaitSentinel => if bytes.len() == 0 || has_da1 {
                Phase::Drain
            } else {
                Phase::AwaitSentinel
            },
            Phase::Drain => if bytes.len() == 0 {
                Phase::Done
            } else {
                Phase::Drain
            },
            Phase::Done => Phase::Done,
        };
        self.phase = next;
        next
    }

    /// The session's phase.
    pub fn phase(&self) -> (p: Phase)
        ensures
            p == self.phase_spec(),
    {
        self.phase
    }

    /// The session's parser.
    pub fn parser(&self) -> (p: &ResponseParser)
        ensures
            *p == self.parser_spec(),
    {
        &self.parser
    }
}

} // verus!
