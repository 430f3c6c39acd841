//! Reports: the human-readable listing of probe results and of probes.
use vstd::prelude::*;
use crate::probe::{
    probes_view, results_view, Category, Probe, ProbeOutput, ProbeResultView, ProbeStatus,
    ProbeView,
};
use crate::parser::opt_text;
use crate::text::{
    chars_eq, chars_of, decimal, extend_chars, extend_padded, extend_str, pad_right,
    has_suffix, push_decimal, string_from, string_of, text_lt, upper_char, upper_chars,
};

verus! {

/// When reports use color.
#[derive(Debug, Clone, Copy, PartialEq, Eq, Structural)]
pub enum ColorMode {
    Auto,
    Always,
    Never,
}

impl ColorMode {
    /// The mode named `s`; an error naming `s` otherwise.
    pub fn parse(s: &str) -> (r: Result<ColorMode, String>)
        ensures
            r matches Ok(m) ==> (m == ColorMode::Auto && s@ == "auto"@) || (m == ColorMode::Always
                && s@ == "always"@) || (m == ColorMode::Never && s@ == "never"@),
            r is Err <==> (s@ != "auto"@ && s@ != "always"@ && s@ != "never"@),
            r matches Err(e) ==> e@ == "unknown color mode: "@ + s@,
    {
        let cs = chars_of(s);
        if chars_eq(cs.as_slice(), chars_of("auto").as_slice()) {
            Ok(ColorMode::Auto)
        } else if chars_eq(cs.as_slice(), chars_of("always").as_slice()) {
            Ok(ColorMode::Always)
        } else if chars_eq(cs.as_slice(), chars_of("never").as_slice()) {
            Ok(ColorMode::Never)
        } else {
            let mut e = chars_of("unknown color mode: ");
            extend_chars(&mut e, cs.as_slice());
            Err(string_of(e.as_slice()))
        }
    }
}

impl std::str::FromStr for ColorMode {
    type Err = String;

    fn from_str(s: &str) -> (r: Result<Self, Self::Err>)
        ensures
            r matches Ok(m) ==> (m == ColorMode::Auto && s@ == "auto"@) || (m == ColorMode::Always
                && s@ == "always"@) || (m == ColorMode::Never && s@ == "never"@),
            r is Err <==> (s@ != "auto"@ && s@ != "always"@ && s@ != "never"@),
            r matches Err(e) ==> e@ == "unknown color mode: "@ + s@,
    {
        ColorMode::parse(s)
    }
}

/// Whether reports use color: always, never, or (auto) when `NO_COLOR` is
/// not set and the output goes to a pager or a terminal.
pub open spec fn color_enabled(
    mode: ColorMode,
    no_color_set: bool,
    pager_enabled: bool,
    stdout_is_terminal: bool,
) -> bool {
    match mode {
        ColorMode::Always => true,
        ColorMode::Never => false,
        ColorMode::Auto => !no_color_set && (pager_enabled || stdout_is_terminal),
    }
}

/// Whether reports use color, given what the environment says.
pub fn resolve_color(
    mode: ColorMode,
    no_color_set: bool,
    pager_enabled: bool,
    stdout_is_terminal: bool,
) -> (r: bool)
    ensures
        r == color_enabled(mode, no_color_set, pager_enabled, stdout_is_terminal),
{
    match mode {
        ColorMode::Always => true,
        ColorMode::Never => false,
        ColorMode::Auto => !no_color_set && (pager_enabled || stdout_is_terminal),
    }
}

/// A status as reports show it, colored when `color` is set.
pub open spec fn status_text(s: ProbeStatus, color: bool) -> Seq<char> {
    let code = match s {
        ProbeStatus::Supported => "\x1b[32m"@,
        ProbeStatus::Unsupported => "\x1b[31m"@,
        ProbeStatus::Unknown => "\x1b[2m"@,
    };
    if color {
        code + s.name_spec() + "\x1b[0m"@
    } else {
        s.name_spec()
    }
}

/// A status as reports show it, colored when `color` is set.
pub fn colored_status(status: &ProbeStatus, color: bool) -> (s: String)
    ensures
        s@ == status_text(*status, color),
{
    let code = match status {
        ProbeStatus::Supported => "\x1b[32m",
        ProbeStatus::Unsupported => "\x1b[31m",
        ProbeStatus::Unknown => "\x1b[2m",
    };
    if color {
        let mut out = chars_of(code);
        extend_str(&mut out, status.name());
        extend_str(&mut out, "\x1b[0m");
        string_of(out.as_slice())
    } else {
        string_from(status.name())
    }
}

/// The name a report shows for a result: its label if it has one.
pub open spec fn display_name(r: ProbeResultView) -> Seq<char> {
    match r.label {
        Some(l) => l,
        None => r.name,
    }
}

/// What follows a result's name: its value when supported, else its
/// status and any value.
pub open spec fn result_body(r: ProbeResultView, color: bool) -> Seq<char> {
    match r.value {
        Some(v) => if r.status == ProbeStatus::Supported {
            v
        } else {
            status_text(r.status, color) + " "@ + v
        },
        None => status_text(r.status, color),
    }
}

/// The query line shown under a result with `raw`.
pub open spec fn query_line(r: ProbeResultView, raw: bool) -> Seq<char> {
    match r.raw_query {
        Some(q) => if raw {
            "    query:    "@ + q + "\n"@
        } else {
            Seq::empty()
        },
        None => Seq::empty(),
    }
}

/// The lines a report shows for one result: the name padded to 28
/// characters, the body, and with `raw` the query.
pub open spec fn result_lines(r: ProbeResultView, raw: bool, color: bool) -> Seq<char> {
    "  "@ + pad_right(display_name(r), 28) + " "@ + result_body(r, color) + "\n"@ + query_line(
        r,
        raw,
    )
}

/// The results of category `c`, in order.
pub open spec fn results_in(results: Seq<ProbeResultView>, c: Category) -> Seq<ProbeResultView>
    decreases results.len(),
{
    if results.len() == 0 {
        Seq::empty()
    } else {
        let rest = results_in(results.drop_last(), c);
        if results.last().category == c {
            rest.push(results.last())
        } else {
            rest
        }
    }
}

/// The lines for a list of results.
pub open spec fn lines_of(rs: Seq<ProbeResultView>, raw: bool, color: bool) -> Seq<char>
    decreases rs.len(),
{
    if rs.len() == 0 {
        Seq::empty()
    } else {
        lines_of(rs.drop_last(), raw, color) + result_lines(rs.last(), raw, color)
    }
}

/// A category's name in capitals, as section headings show it.
pub open spec fn heading(c: Category) -> Seq<char> {
    c.name_spec().map_values(|ch: char| upper_char(ch))
}

/// One category's section: a heading and its results; nothing when it has
/// no results.
pub open spec fn category_section(
    results: Seq<ProbeResultView>,
    c: Category,
    raw: bool,
    color: bool,
) -> Seq<char> {
    let rs = results_in(results, c);
    if rs.len() == 0 {
        Seq::empty()
    } else {
        "\n"@ + heading(c) + "\n"@ + lines_of(rs, raw, color)
    }
}

/// The sections for the categories `cats`, in order.
pub open spec fn sections(results: Seq<ProbeResultView>, cats: Seq<Category>, raw: bool, color: bool) -> Seq<
    char,
>
    decreases cats.len(),
{
    if cats.len() == 0 {
        Seq::empty()
    } else {
        sections(results, cats.drop_last(), raw, color) + category_section(
            results,
            cats.last(),
            raw,
            color,
        )
    }
}

/// Number of results with status `s`.
pub open spec fn count_status(results: Seq<ProbeResultView>, s: ProbeStatus) -> nat
    decreases results.len(),
{
    if results.len() == 0 {
        0
    } else {
        count_status(results.drop_last(), s) + if results.last().status == s {
            1nat
        } else {
            0nat
        }
    }
}

/// Index of the first supported result called `name`.
pub open spec fn first_supported(results: Seq<ProbeResultView>, name: Seq<char>) -> Option<int>
    decreases results.len(),
{
    if results.len() == 0 {
        None
    } else if results[0].name == name && results[0].status == ProbeStatus::Supported {
        Some(0)
    } else {
        match first_supported(results.drop_first(), name) {
            Some(k) => Some(k + 1),
            None => None,
        }
    }
}

/// The terminal's name for the summary: the value of the first supported
/// `xtversion` result, or failing such a result, of the first supported
/// `da2` result.
pub open spec fn terminal_name(results: Seq<ProbeResultView>) -> Option<Seq<char>> {
    match first_supported(results, "xtversion"@) {
        Some(i) => results[i].value,
        None => match first_supported(results, "da2"@) {
            Some(i) => results[i].value,
            None => None,
        },
    }
}

/// The closing summary: the terminal's name if known, then the counts.
pub open spec fn summary(results: Seq<ProbeResultView>) -> Seq<char> {
    "\n"@ + (match terminal_name(results) {
        Some(t) => t + "\n"@,
        None => Seq::empty(),
    }) + decimal(count_status(results, ProbeStatus::Supported)) + "/"@ + decimal(results.len())
        + " supported, "@ + decimal(count_status(results, ProbeStatus::Unsupported))
        + " unsupported, "@ + decimal(count_status(results, ProbeStatus::Unknown)) + " unknown\n"@
}

/// The human-readable report.
pub open spec fn human_text(
    results: Seq<ProbeResultView>,
    raw_response: Option<Seq<char>>,
    raw: bool,
    color: bool,
) -> Seq<char> {
    sections(results, Category::ALL@, raw, color) + (match raw_response {
        Some(r) => "\nRaw response: "@ + r + "\n"@,
        None => Seq::empty(),
    }) + summary(results)
}

/// Law: every result is counted exactly once in the summary: supported,
/// unsupported and unknown add up to the total.
pub proof fn law_summary_counts(results: Seq<ProbeResultView>)
    ensures
        count_status(results, ProbeStatus::Supported) + count_status(
            results,
            ProbeStatus::Unsupported,
        ) + count_status(results, ProbeStatus::Unknown) == results.len(),
    decreases results.len(),
{
    if results.len() > 0 {
        law_summary_counts(results.drop_last());
    }
}

proof fn lemma_count_bound(results: Seq<ProbeResultView>, s: ProbeStatus)
    ensures
        count_status(results, s) <= results.len(),
    decreases results.len(),
{
    if results.len() > 0 {
        lemma_count_bound(results.drop_last(), s);
    }
}

proof fn lemma_first_supported(results: Seq<ProbeResultView>, name: Seq<char>, k: int)
    requires
        0 <= k <= results.len(),
        forall|j: int|
            0 <= j < k ==> !((#[trigger] results[j]).name == name && results[j].status
                == ProbeStatus::Supported),
    ensures
        k < results.len() && results[k].name == name && results[k].status
            == ProbeStatus::Supported ==> first_supported(results, name) == Some(k),
        k == results.len() ==> first_supported(results, name) is None,
    decreases k,
{
    if k > 0 {
        let t = results.drop_first();
        assert forall|j: int| 0 <= j < k - 1 implies !((#[trigger] t[j]).name == name && t[j].status
            == ProbeStatus::Supported) by {
            assert(t[j] == results[j + 1]);
        }
        lemma_first_supported(t, name, k - 1);
        if k < results.len() {
            assert(t[k - 1] == results[k]);
        }
    }
}

/// What follows a result's name.
fn result_body_chars(r: &crate::probe::ProbeResult, color: bool) -> (v: Vec<char>)
    ensures
        v@ == result_body(r@, color),
{
    match &r.value {
        Some(val) => {
            if r.status == ProbeStatus::Supported {
                chars_of(val.as_str())
            } else {
                let st = colored_status(&r.status, color);
                let mut out = chars_of(st.as_str());
                extend_str(&mut out, " ");
                extend_str(&mut out, val.as_str());
                out
            }
        },
        None => {
            let st = colored_status(&r.status, color);
            chars_of(st.as_str())
        },
    }
}

/// The query line shown under a result.
fn query_line_chars(r: &crate::probe::ProbeResult, raw: bool) -> (v: Vec<char>)
    ensures
        v@ == query_line(r@, raw),
{
    let mut out: Vec<char> = Vec::new();
    if raw {
        if let Some(q) = &r.raw_query {
            extend_str(&mut out, "    query:    ");
            extend_str(&mut out, q.as_str());
            extend_str(&mut out, "\n");
        }
    }
    out
}

/// Appends the lines a report shows for one result.
fn push_result_lines(out: &mut Vec<char>, r: &crate::probe::ProbeResult, raw: bool, color: bool)
    ensures
        final(out)@ == old(out)@ + result_lines(r@, raw, color),
{
    let name = match &r.label {
        Some(l) => chars_of(l.as_str()),
        None => chars_of(r.name.as_str()),
    };
    assert(name@ == display_name(r@));
    let body = result_body_chars(r, color);
    let query = query_line_chars(r, raw);
    extend_str(out, "  ");
    extend_padded(out, name.as_slice(), 28);
    extend_str(out, " ");
    extend_chars(out, body.as_slice());
    extend_str(out, "\n");
    extend_chars(out, query.as_slice());
    assert(final(out)@ =~= old(out)@ + result_lines(r@, raw, color));
}

/// Appends one category's section.
fn push_section(
    buf: &mut Vec<char>,
    results: &Vec<crate::probe::ProbeResult>,
    category: Category,
    raw: bool,
    color: bool,
)
    ensures
        final(buf)@ == old(buf)@ + category_section(results_view(results@), category, raw, color),
{
    let ghost rv = results_view(results@);
    let mut lines: Vec<char> = Vec::new();
    let mut n: usize = 0;
    let mut j: usize = 0;
    while j < results.len()
        invariant
            j <= results.len(),
            rv == results_view(results@),
            n == results_in(rv.take(j as int), category).len(),
            n <= j,
            lines@ == lines_of(results_in(rv.take(j as int), category), raw, color),
        decreases results.len() - j,
    {
        proof {
            assert(rv.take(j + 1).drop_last() == rv.take(j as int));
            assert(rv.take(j + 1).last() == rv[j as int]);
        }
        if results[j].category == category {
            push_result_lines(&mut lines, &results[j], raw, color);
            n = n + 1;
            proof {
                let rs = results_in(rv.take(j + 1), category);
                assert(rs.drop_last() == results_in(rv.take(j as int), category));
            }
        }
        j = j + 1;
    }
    assert(rv.take(results.len() as int) == rv);
    if n > 0 {
        let ghost before = buf@;
        extend_str(buf, "\n");
        let name = chars_of(category.name());
        let upper = upper_chars(name.as_slice());
        extend_chars(buf, upper.as_slice());
        extend_str(buf, "\n");
        extend_chars(buf, lines.as_slice());
        assert(buf@ =~= before + category_section(rv, category, raw, color));
    } else {
        assert(buf@ =~= buf@ + category_section(rv, category, raw, color));
    }
}

/// The three status counts.
fn count_statuses(results: &Vec<crate::probe::ProbeResult>) -> (r: (usize, usize, usize))
    ensures
        r.0 == count_status(results_view(results@), ProbeStatus::Supported),
        r.1 == count_status(results_view(results@), ProbeStatus::Unsupported),
        r.2 == count_status(results_view(results@), ProbeStatus::Unknown),
{
    let ghost rv = results_view(results@);
    let mut supported: usize = 0;
    let mut unsupported: usize = 0;
    let mut unknown: usize = 0;
    let mut j: usize = 0;
    while j < results.len()
        invariant
            j <= results.len(),
            rv == results_view(results@),
            supported == count_status(rv.take(j as int), ProbeStatus::Supported),
            unsupported == count_status(rv.take(j as int), ProbeStatus::Unsupported),
            unknown == count_status(rv.take(j as int), ProbeStatus::Unknown),
        decreases results.len() - j,
    {
        proof {
            assert(rv.take(j + 1).drop_last() == rv.take(j as int));
            assert(rv.take(j + 1).last() == rv[j as int]);
            lemma_count_bound(rv.take(j as int), ProbeStatus::Supported);
            lemma_count_bound(rv.take(j as int), ProbeStatus::Unsupported);
            lemma_count_bound(rv.take(j as int), ProbeStatus::Unknown);
        }
        match results[j].status {
            ProbeStatus::Supported => supported = supported + 1,
            ProbeStatus::Unsupported => unsupported = unsupported + 1,
            ProbeStatus::Unknown => unknown = unknown + 1,
        }
        j = j + 1;
    }
    assert(rv.take(results.len() as int) == rv);
    (supported, unsupported, unknown)
}

/// Appends the closing summary.
fn push_summary(buf: &mut Vec<char>, results: &Vec<crate::probe::ProbeResult>)
    ensures
        final(buf)@ == old(buf)@ + summary(results_view(results@)),
{
    let ghost rv = results_view(results@);
    let (supported, unsupported, unknown) = count_statuses(results);
    let xt = chars_of("xtversion");
    let da2 = chars_of("da2");
    let terminal = match find_supported(results, xt.as_slice()) {
        Some(i) => value_of(&results[i]),
        None => match find_supported(results, da2.as_slice()) {
            Some(i) => value_of(&results[i]),
            None => None,
        },
    };
    assert(opt_text(terminal) == terminal_name(rv));
    let ghost before = buf@;
    extend_str(buf, "\n");
    if let Some(t) = &terminal {
        extend_str(buf, t.as_str());
        extend_str(buf, "\n");
    }
    let ghost mid = buf@;
    push_decimal(buf, supported as u64);
    extend_str(buf, "/");
    push_decimal(buf, results.len() as u64);
    extend_str(buf, " supported, ");
    push_decimal(buf, unsupported as u64);
    extend_str(buf, " unsupported, ");
    push_decimal(buf, unknown as u64);
    extend_str(buf, " unknown\n");
    assert(mid =~= before + "\n"@ + (match terminal_name(rv) {
        Some(t) => t + "\n"@,
        None => Seq::empty(),
    }));
    assert(buf@ =~= before + summary(rv));
}

/// The human-readable report for a session's output; `color` decides
/// whether statuses are colored.
pub fn format_human(output: &ProbeOutput, raw: bool, color: bool) -> (s: String)
    ensures
        s@ == human_text(results_view(output.results@), opt_text(output.raw_response), raw, color),
{
    let results = &output.results;
    let ghost rv = results_view(results@);
    let mut buf: Vec<char> = Vec::new();
    let mut k: usize = 0;
    while k < 8
        invariant
            k <= 8,
            rv == results_view(results@),
            buf@ == sections(rv, Category::ALL@.take(k as int), raw, color),
        decreases 8 - k,
    {
        proof {
            assert(Category::ALL@.take(k + 1).drop_last() == Category::ALL@.take(k as int));
            assert(Category::ALL@.take(k + 1).last() == Category::ALL@[k as int]);
        }
        push_section(&mut buf, results, Category::ALL[k], raw, color);
        k = k + 1;
    }
    assert(Category::ALL@.take(8) == Category::ALL@);
    let ghost secs = buf@;
    if let Some(r) = &output.raw_response {
        extend_str(&mut buf, "\nRaw response: ");
        extend_str(&mut buf, r.as_str());
        extend_str(&mut buf, "\n");
    }
    let ghost before_summary = buf@;
    assert(before_summary =~= secs + (match opt_text(output.raw_response) {
        Some(r) => "\nRaw response: "@ + r + "\n"@,
        None => Seq::empty(),
    }));
    push_summary(&mut buf, results);
    assert(buf@ =~= human_text(rv, opt_text(output.raw_response), raw, color));
    string_of(buf.as_slice())
}

/// A copy of a result's value.
fn value_of(r: &crate::probe::ProbeResult) -> (v: Option<String>)
    ensures
        opt_text(v) == r@.value,
{
    match &r.value {
        Some(s) => Some(s.clone()),
        None => None,
    }
}

/// Index of the first supported result called `name`.
fn find_supported(results: &Vec<crate::probe::ProbeResult>, name: &[char]) -> (r: Option<usize>)
    ensures
        r matches Some(i) ==> i < results@.len() && first_supported(results_view(results@), name@)
            == Some(i as int),
        r is None ==> first_supported(results_view(results@), name@) is None,
{
    let ghost rv = results_view(results@);
    let mut i: usize = 0;
    while i < results.len()
        invariant
            i <= results.len(),
            rv == results_view(results@),
            forall|j: int|
                0 <= j < i ==> !((#[trigger] rv[j]).name == name@ && rv[j].status
                    == ProbeStatus::Supported),
        decreases results.len() - i,
    {
        let n = chars_of(results[i].name.as_str());
        if chars_eq(n.as_slice(), name) && results[i].status == ProbeStatus::Supported {
            proof {
                lemma_first_supported(rv, name@, i as int);
            }
            return Some(i);
        }
        i = i + 1;
    }
    proof {
        lemma_first_supported(rv, name@, i as int);
    }
    None
}

/// The probes of category `c`, in order.
pub open spec fn probes_in(probes: Seq<ProbeView>, c: Category) -> Seq<ProbeView>
    decreases probes.len(),
{
    if probes.len() == 0 {
        Seq::empty()
    } else {
        let rest = probes_in(probes.drop_last(), c);
        if probes.last().category == c {
            rest.push(probes.last())
        } else {
            rest
        }
    }
}

/// One line per probe name.
pub open spec fn name_lines(ps: Seq<ProbeView>) -> Seq<char>
    decreases ps.len(),
{
    if ps.len() == 0 {
        Seq::empty()
    } else {
        name_lines(ps.drop_last()) + "  "@ + ps.last().name + "\n"@
    }
}

/// The listing of `cats`' probes, one section per category that has any.
pub open spec fn list_sections(probes: Seq<ProbeView>, cats: Seq<Category>) -> Seq<char>
    decreases cats.len(),
{
    if cats.len() == 0 {
        Seq::empty()
    } else {
        let ps = probes_in(probes, cats.last());
        list_sections(probes, cats.drop_last()) + if ps.len() == 0 {
            Seq::empty()
        } else {
            "\n"@ + heading(cats.last()) + "\n"@ + name_lines(ps)
        }
    }
}

/// The `--list-probes` listing: probe names grouped by category, then an
/// empty line.
pub open spec fn probe_list_text(probes: Seq<ProbeView>) -> Seq<char> {
    list_sections(probes, Category::ALL@) + "\n"@
}

/// The `--list-probes` listing.
pub fn format_probe_list(probes: &[Probe]) -> (s: String)
    ensures
        s@ == probe_list_text(probes_view(probes@)),
{
    let ghost pv = probes_view(probes@);
    let mut buf: Vec<char> = Vec::new();
    let mut k: usize = 0;
    while k < 8
        invariant
            k <= 8,
            pv == probes_view(probes@),
            buf@ == list_sections(pv, Category::ALL@.take(k as int)),
        decreases 8 - k,
    {
        let category = Category::ALL[k];
        let mut lines: Vec<char> = Vec::new();
        let mut n: usize = 0;
        let mut j: usize = 0;
        while j < probes.len()
            invariant
                j <= probes.len(),
                pv == probes_view(probes@),
                n == probes_in(pv.take(j as int), category).len(),
                n <= j,
                lines@ == name_lines(probes_in(pv.take(j as int), category)),
            decreases probes.len() - j,
        {
            proof {
                assert(pv.take(j + 1).drop_last() == pv.take(j as int));
                assert(pv.take(j + 1).last() == pv[j as int]);
            }
            if probes[j].category == category {
                extend_str(&mut lines, "  ");
                extend_str(&mut lines, probes[j].name);
                extend_str(&mut lines, "\n");
                n = n + 1;
                proof {
                    let ps = probes_in(pv.take(j + 1), category);
                    assert(ps.drop_last() == probes_in(pv.take(j as int), category));
                    assert(lines@ =~= name_lines(ps));
                }
            }
            j = j + 1;
        }
        proof {
            assert(pv.take(probes.len() as int) == pv);
            assert(Category::ALL@.take(k + 1).drop_last() == Category::ALL@.take(k as int));
            assert(Category::ALL@.take(k + 1).last() == Category::ALL@[k as int]);
        }
        if n > 0 {
            extend_str(&mut buf, "\n");
            let name = chars_of(category.name());
            let upper = upper_chars(name.as_slice());
            extend_chars(&mut buf, upper.as_slice());
            extend_str(&mut buf, "\n");
            extend_chars(&mut buf, lines.as_slice());
        }
        k = k + 1;
    }
    assert(Category::ALL@.take(8) == Category::ALL@);
    extend_str(&mut buf, "\n");
    string_of(buf.as_slice())
}


/// The results whose status is `s`.
pub open spec fn with_status(results: Seq<ProbeResultView>, s: ProbeStatus) -> Seq<ProbeResultView> {
    results.filter(|r: ProbeResultView| r.status == s)
}

proof fn lemma_count_is_filter(results: Seq<ProbeResultView>, s: ProbeStatus)
    ensures
        count_status(results, s) == with_status(results, s).len(),
    decreases results.len(),
{
    reveal_with_fuel(Seq::filter, 1);
    if results.len() > 0 {
        lemma_count_is_filter(results.drop_last(), s);
    }
}

/// The counts line, with each count taken over the results directly.
pub open spec fn counts_line(results: Seq<ProbeResultView>) -> Seq<char> {
    decimal(with_status(results, ProbeStatus::Supported).len()) + "/"@ + decimal(results.len())
        + " supported, "@ + decimal(with_status(results, ProbeStatus::Unsupported).len())
        + " unsupported, "@ + decimal(with_status(results, ProbeStatus::Unknown).len())
        + " unknown\n"@
}

proof fn lemma_summary_ends_with_counts(results: Seq<ProbeResultView>)
    ensures
        summary(results) == "\n"@ + (match terminal_name(results) {
            Some(t) => t + "\n"@,
            None => Seq::empty(),
        }) + counts_line(results),
{
    lemma_count_is_filter(results, ProbeStatus::Supported);
    lemma_count_is_filter(results, ProbeStatus::Unsupported);
    lemma_count_is_filter(results, ProbeStatus::Unknown);
    assert(summary(results) =~= "\n"@ + (match terminal_name(results) {
        Some(t) => t + "\n"@,
        None => Seq::empty(),
    }) + counts_line(results));
}

proof fn lemma_suffix_of_concat(a: Seq<char>, b: Seq<char>)
    ensures
        has_suffix(a + b, b),
{
    assert((a + b).subrange(a.len() as int, (a + b).len() as int) =~= b);
}

/// Law: the human report ends with the counts line: the number of
/// supported results out of all results, then the numbers of unsupported
/// and of unknown results, each counted over the results themselves.
#[verifier::spinoff_prover]
pub proof fn law_report_counts_line(
    results: Seq<ProbeResultView>,
    raw_response: Option<Seq<char>>,
    raw: bool,
    color: bool,
)
    ensures
        has_suffix(human_text(results, raw_response, raw, color), counts_line(results)),
{
    lemma_summary_ends_with_counts(results);
    let pre = sections(results, Category::ALL@, raw, color) + (match raw_response {
        Some(r) => "\nRaw response: "@ + r + "\n"@,
        None => Seq::empty(),
    });
    let mid = "\n"@ + (match terminal_name(results) {
        Some(t) => t + "\n"@,
        None => Seq::empty(),
    });
    assert(human_text(results, raw_response, raw, color) == pre + summary(results));
    assert(pre + summary(results) =~= (pre + mid) + counts_line(results));
    lemma_suffix_of_concat(pre + mid, counts_line(results));
}

// ---------------------------------------------------------------------------
// JSON report
// ---------------------------------------------------------------------------

/// One probe's entry in the JSON report.
pub struct JsonEntry {
    pub name: String,
    pub status: ProbeStatus,
    pub value: Option<String>,
    pub raw_query: Option<String>,
}

/// Model of a `JsonEntry`.
pub struct JsonEntryView {
    pub name: Seq<char>,
    pub status: ProbeStatus,
    pub value: Option<Seq<char>>,
    pub raw_query: Option<Seq<char>>,
}

impl View for JsonEntry {
    type V = JsonEntryView;

    open spec fn view(&self) -> JsonEntryView {
        JsonEntryView {
            name: self.name@,
            status: self.status,
            value: opt_text(self.value),
            raw_query: opt_text(self.raw_query),
        }
    }
}

/// The entries of one category in the JSON report.
pub struct JsonGroup {
    pub category: Category,
    pub entries: Vec<JsonEntry>,
}

/// Model of a `JsonGroup`.
pub struct JsonGroupView {
    pub category: Category,
    pub entries: Seq<JsonEntryView>,
}

impl View for JsonGroup {
    type V = JsonGroupView;

    open spec fn view(&self) -> JsonGroupView {
        JsonGroupView {
            category: self.category,
            entries: self.entries@.map_values(|e: JsonEntry| e@),
        }
    }
}

/// Every category, in ascending order of its name: the order of the keys
/// of the JSON report.
pub const BY_NAME: [Category; 8] = [
    Category::Colors,
    Category::Features,
    Category::Geometry,
    Category::Graphics,
    Category::Identity,
    Category::Keyboard,
    Category::Modes,
    Category::Styling,
];

/// A result's JSON entry; its query only with `raw`.
pub open spec fn json_entry(r: ProbeResultView, raw: bool) -> JsonEntryView {
    JsonEntryView {
        name: r.name,
        status: r.status,
        value: r.value,
        raw_query: if raw {
            r.raw_query
        } else {
            None
        },
    }
}

/// The JSON groups of the categories `cats` that have results, in order.
pub open spec fn json_groups_over(
    results: Seq<ProbeResultView>,
    cats: Seq<Category>,
    raw: bool,
) -> Seq<JsonGroupView>
    decreases cats.len(),
{
    if cats.len() == 0 {
        Seq::empty()
    } else {
        let rs = results_in(results, cats.last());
        let prev = json_groups_over(results, cats.drop_last(), raw);
        if rs.len() == 0 {
            prev
        } else {
            prev.push(
                JsonGroupView {
                    category: cats.last(),
                    entries: rs.map_values(|r: ProbeResultView| json_entry(r, raw)),
                },
            )
        }
    }
}

/// The JSON report's groups: one per category that has results, in
/// ascending order of the category's name, each with its results' entries
/// in order.
pub open spec fn json_groups_spec(results: Seq<ProbeResultView>, raw: bool) -> Seq<JsonGroupView> {
    json_groups_over(results, BY_NAME@, raw)
}

/// The JSON entry of `r`.
fn json_entry_of(r: &crate::probe::ProbeResult, raw: bool) -> (e: JsonEntry)
    ensures
        e@ == json_entry(r@, raw),
{
    JsonEntry {
        name: r.name.clone(),
        status: r.status,
        value: value_of(r),
        raw_query: if raw {
            match &r.raw_query {
                Some(q) => Some(q.clone()),
                None => None,
            }
        } else {
            None
        },
    }
}

/// The results of a session grouped by category for the JSON report.
pub fn json_groups(output: &ProbeOutput, raw: bool) -> (g: Vec<JsonGroup>)
    ensures
        g@.map_values(|x: JsonGroup| x@) == json_groups_spec(results_view(output.results@), raw),
{
    let results = &output.results;
    let ghost rv = results_view(results@);
    let mut groups: Vec<JsonGroup> = Vec::new();
    let mut k: usize = 0;
    while k < 8
        invariant
            k <= 8,
            rv == results_view(results@),
            groups@.map_values(|x: JsonGroup| x@) == json_groups_over(
                rv,
                BY_NAME@.take(k as int),
                raw,
            ),
        decreases 8 - k,
    {
        let category = BY_NAME[k];
        let mut entries: Vec<JsonEntry> = Vec::new();
        let mut j: usize = 0;
        while j < results.len()
            invariant
                j <= results.len(),
                rv == results_view(results@),
                entries@.map_values(|e: JsonEntry| e@) == results_in(
                    rv.take(j as int),
                    category,
                ).map_values(|r: ProbeResultView| json_entry(r, raw)),
            decreases results.len() - j,
        {
            proof {
                assert(rv.take(j + 1).drop_last() == rv.take(j as int));
                assert(rv.take(j + 1).last() == rv[j as int]);
            }
            if results[j].category == category {
                let e = json_entry_of(&results[j], raw);
                let ghost before = entries@.map_values(|e: JsonEntry| e@);
                entries.push(e);
                proof {
                    let prev = results_in(rv.take(j as int), category);
                    let rs = results_in(rv.take(j + 1), category);
                    assert(rs == prev.push(rv[j as int]));
                    assert(entries@.map_values(|e: JsonEntry| e@) =~= before.push(
                        json_entry(rv[j as int], raw),
                    ));
                    assert(rs.map_values(|r: ProbeResultView| json_entry(r, raw)) =~= prev.map_values(
                        |r: ProbeResultView| json_entry(r, raw),
                    ).push(json_entry(rv[j as int], raw)));
                }
            }
            j = j + 1;
        }
        proof {
            assert(rv.take(results.len() as int) == rv);
            assert(BY_NAME@.take(k + 1).drop_last() == BY_NAME@.take(k as int));
            assert(BY_NAME@.take(k + 1).last() == BY_NAME@[k as int]);
        }
        if entries.len() > 0 {
            let ghost before = groups@.map_values(|x: JsonGroup| x@);
            groups.push(JsonGroup { category, entries });
            assert(groups@.map_values(|x: JsonGroup| x@) =~= before.push(
                groups@[groups@.len() - 1]@,
            ));
        }
        k = k + 1;
    }
    assert(BY_NAME@.take(8) == BY_NAME@);
    groups
}

/// Position of `c` in `BY_NAME`.
pub open spec fn name_rank(c: Category) -> int {
    match c {
        Category::Colors => 0,
        Category::Features => 1,
        Category::Geometry => 2,
        Category::Graphics => 3,
        Category::Identity => 4,
        Category::Keyboard => 5,
        Category::Modes => 6,
        Category::Styling => 7,
    }
}

proof fn lemma_by_name_rank(k: int)
    requires
        0 <= k < 8,
    ensures
        name_rank(BY_NAME@[k]) == k,
{
}

/// Neighbours in `BY_NAME` are in ascending order of name.
proof fn lemma_by_name_step(k: int)
    requires
        0 <= k < 7,
    ensures
        text_lt(BY_NAME@[k].name_spec(), BY_NAME@[k + 1].name_spec()),
{
    reveal_strlit("colors");
    reveal_strlit("features");
    reveal_strlit("geometry");
    reveal_strlit("graphics");
    reveal_strlit("identity");
    reveal_strlit("keyboard");
    reveal_strlit("modes");
    reveal_strlit("styling");
    if k == 2 {
        let a = "geometry"@;
        let b = "graphics"@;
        assert(a.drop_first()[0] == 'e' && b.drop_first()[0] == 'r');
        assert(text_lt(a.drop_first(), b.drop_first()));
    }
}

/// A lower rank means a smaller name.
proof fn lemma_rank_orders_names(i: int, j: int)
    requires
        0 <= i < j < 8,
    ensures
        text_lt(BY_NAME@[i].name_spec(), BY_NAME@[j].name_spec()),
    decreases j - i,
{
    lemma_by_name_step(j - 1);
    if i < j - 1 {
        lemma_rank_orders_names(i, j - 1);
        crate::text::lemma_text_lt_transitive(
            BY_NAME@[i].name_spec(),
            BY_NAME@[j - 1].name_spec(),
            BY_NAME@[j].name_spec(),
        );
    }
}

proof fn lemma_groups_ranked(results: Seq<ProbeResultView>, k: int, raw: bool)
    requires
        0 <= k <= 8,
    ensures
        forall|i: int|
            0 <= i < json_groups_over(results, BY_NAME@.take(k), raw).len() ==> name_rank(
                #[trigger] json_groups_over(results, BY_NAME@.take(k), raw)[i].category,
            ) < k,
        forall|i: int, j: int|
            0 <= i < j < json_groups_over(results, BY_NAME@.take(k), raw).len() ==> name_rank(
                #[trigger] json_groups_over(results, BY_NAME@.take(k), raw)[i].category,
            ) < name_rank(#[trigger] json_groups_over(results, BY_NAME@.take(k), raw)[j].category),
    decreases k,
{
    if k > 0 {
        lemma_groups_ranked(results, k - 1, raw);
        assert(BY_NAME@.take(k).drop_last() == BY_NAME@.take(k - 1));
        assert(BY_NAME@.take(k).last() == BY_NAME@[k - 1]);
        lemma_by_name_rank(k - 1);
    }
}

/// Law: the JSON report's groups come in strictly ascending order of their
/// category names, so no category appears twice and the order is that of
/// the report's object keys.
pub proof fn law_json_groups_sorted(results: Seq<ProbeResultView>, raw: bool)
    ensures
        forall|i: int, j: int|
            0 <= i < j < json_groups_spec(results, raw).len() ==> text_lt(
                (#[trigger] json_groups_spec(results, raw)[i]).category.name_spec(),
                (#[trigger] json_groups_spec(results, raw)[j]).category.name_spec(),
            ),
{
    let g = json_groups_spec(results, raw);
    lemma_groups_ranked(results, 8, raw);
    assert(BY_NAME@.take(8) == BY_NAME@);
    assert forall|i: int, j: int| 0 <= i < j < g.len() implies text_lt(
        (#[trigger] g[i]).category.name_spec(),
        (#[trigger] g[j]).category.name_spec(),
    ) by {
        let a = g[i].category;
        let b = g[j].category;
        lemma_by_name_rank(name_rank(a));
        lemma_by_name_rank(name_rank(b));
        assert(BY_NAME@[name_rank(a)] == a);
        assert(BY_NAME@[name_rank(b)] == b);
        lemma_rank_orders_names(name_rank(a), name_rank(b));
    }
}

} // verus!
