//! Paging decisions: whether a report goes through a pager, and which.
use vstd::prelude::*;
use crate::text::{chars_eq, chars_of, extend_chars, string_from, string_of};

verus! {

/// When reports go through a pager.
#[derive(Debug, Clone, Copy, PartialEq, Eq, Structural)]
pub enum PagerMode {
    Auto,
    Always,
    Never,
}

impl PagerMode {
    /// The mode named `s`; an error naming `s` otherwise.
    pub fn parse(s: &str) -> (r: Result<PagerMode, String>)
        ensures
            r matches Ok(m) ==> (m == PagerMode::Auto && s@ == "auto"@) || (m == PagerMode::Always
                && s@ == "always"@) || (m == PagerMode::Never && s@ == "never"@),
            r is Err <==> (s@ != "auto"@ && s@ != "always"@ && s@ != "never"@),
            r matches Err(e) ==> e@ == "unknown pager mode: "@ + s@,
    {
        let cs = chars_of(s);
        if chars_eq(cs.as_slice(), chars_of("auto").as_slice()) {
            Ok(PagerMode::Auto)
        } else if chars_eq(cs.as_slice(), chars_of("always").as_slice()) {
            Ok(PagerMode::Always)
        } else if chars_eq(cs.as_slice(), chars_of("never").as_slice()) {
            Ok(PagerMode::Never)
        } else {
            let mut e = chars_of("unknown pager mode: ");
            extend_chars(&mut e, cs.as_slice());
            Err(string_of(e.as_slice()))
        }
    }

    /// Whether this mode may page at all.
    pub fn may_page(self) -> (r: bool)
        ensures
            r == (self != PagerMode::Never),
    {
        !matches!(self, PagerMode::Never)
    }
}

impl std::str::FromStr for PagerMode {
    type Err = String;

    fn from_str(s: &str) -> (r: Result<Self, Self::Err>)
        ensures
            r matches Ok(m) ==> (m == PagerMode::Auto && s@ == "auto"@) || (m == PagerMode::Always
                && s@ == "always"@) || (m == PagerMode::Never && s@ == "never"@),
            r is Err <==> (s@ != "auto"@ && s@ != "always"@ && s@ != "never"@),
            r matches Err(e) ==> e@ == "unknown pager mode: "@ + s@,
    {
        PagerMode::parse(s)
    }
}

/// Shows reports, through a pager when the mode asks for one.
pub struct Pager {
    mode: PagerMode,
}

impl Pager {
    /// The pager's mode.
    pub closed spec fn mode_spec(&self) -> PagerMode {
        self.mode
    }

    /// A pager with the given mode.
    pub fn new(mode: PagerMode) -> (p: Self)
        ensures
            p.mode_spec() == mode,
    {
        Self { mode }
    }

    /// The pager's mode.
    pub fn mode(&self) -> (m: PagerMode)
        ensures
            m == self.mode_spec(),
    {
        self.mode
    }

    /// Whether to page: never for `Never`, always for `Always`, on a
    /// terminal when the content does not fit for `Auto`.
    pub fn should_page(&self, stdout_is_terminal: bool, exceeds_terminal: bool) -> (r: bool)
        ensures
            r == match self.mode_spec() {
                PagerMode::Never => false,
                PagerMode::Always => true,
                PagerMode::Auto => stdout_is_terminal && exceeds_terminal,
            },
    {
        match self.mode {
            PagerMode::Never => false,
            PagerMode::Always => true,
            PagerMode::Auto => stdout_is_terminal && exceeds_terminal,
        }
    }
}

/// The pager commands to try: `$PAGER` when it is set and not empty, else
/// `less -R`, then `more`.
pub open spec fn candidates_spec(env_pager: Option<Seq<char>>) -> Seq<Seq<char>> {
    match env_pager {
        Some(cmd) => if cmd.len() > 0 {
            seq![cmd]
        } else {
            seq!["less -R"@, "more"@]
        },
        None => seq!["less -R"@, "more"@],
    }
}

/// The pager commands to try, in order.
pub fn pager_candidates(env_pager: Option<&str>) -> (v: Vec<String>)
    ensures
        v@.map_values(|s: String| s@) == candidates_spec(
            match env_pager {
                Some(s) => Some(s@),
                None => None,
            },
        ),
{
    let mut v: Vec<String> = Vec::new();
    match env_pager {
        Some(cmd) => {
            if !cmd.is_empty() {
                v.push(string_from(cmd));
                assert(v@.map_values(|s: String| s@) =~= seq![cmd@]);
                return v;
            }
        },
        None => {},
    }
    v.push(string_from("less -R"));
    v.push(string_from("more"));
    assert(v@.map_values(|s: String| s@) =~= seq!["less -R"@, "more"@]);
    v
}

/// Number of newline characters in `s`.
pub open spec fn newlines(s: Seq<char>) -> nat
    decreases s.len(),
{
    if s.len() == 0 {
        0
    } else {
        newlines(s.drop_last()) + if s.last() == '\n' {
            1nat
        } else {
            0nat
        }
    }
}

/// Number of lines in `s`, as `str::lines().count()`: a final line need not
/// end with a newline, and no empty line follows a final newline.
pub open spec fn line_count(s: Seq<char>) -> nat {
    newlines(s) + if s.len() > 0 && s.last() != '\n' {
        1nat
    } else {
        0nat
    }
}

proof fn lemma_newlines_bound(s: Seq<char>)
    ensures
        newlines(s) <= s.len(),
    decreases s.len(),
{
    if s.len() > 0 {
        lemma_newlines_bound(s.drop_last());
    }
}

/// Number of lines in `content`.
pub fn count_lines(content: &str) -> (n: usize)
    ensures
        n == line_count(content@),
{
    let cs = chars_of(content);
    let mut nl: usize = 0;
    let mut i: usize = 0;
    while i < cs.len()
        invariant
            i <= cs.len(),
            cs@ == content@,
            nl == newlines(cs@.take(i as int)),
        decreases cs.len() - i,
    {
        proof {
            assert(cs@.take(i + 1).drop_last() == cs@.take(i as int));
            assert(cs@.take(i + 1).last() == cs@[i as int]);
            lemma_newlines_bound(cs@.take(i as int));
        }
        if cs[i] == '\n' {
            nl = nl + 1;
        }
        i = i + 1;
    }
    assert(cs@.take(cs.len() as int) == cs@);
    proof {
        lemma_newlines_bound(cs@);
    }
    if cs.len() > 0 && cs[cs.len() - 1] != '\n' {
        proof {
            lemma_newlines_bound(cs@.drop_last());
            assert(cs@.last() == cs@[cs.len() - 1]);
        }
        nl + 1
    } else {
        nl
    }
}

/// Whether `content` is taller than a terminal of `rows` rows leaves room
/// for (three rows are kept free); a terminal reporting no rows never is.
pub fn content_exceeds_rows(content: &str, rows: u16) -> (r: bool)
    ensures
        r == (rows != 0 && line_count(content@) > (if rows >= 3 {
            rows - 3
        } else {
            0
        })),
{
    if rows == 0 {
        return false;
    }
    let lines = count_lines(content);
    lines > (rows as usize).saturating_sub(3)
}

} // verus!
