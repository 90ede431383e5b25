//! The sampler's filtering and renaming policy, and its line-oriented
//! configuration format: `ignore-user: <name>`, `ignore-proc: <name>`,
//! `rename-proc: <from> -> <to>`, with `#` comment lines.

use vstd::prelude::*;

use crate::text::{
    find_char_from, find_pair, first_idx, first_idx2, spec_lines, spec_trim, split_lines, str_eq,
    trim_front, trim_of, trim_start_of, u64_to_string,
};
use vstd::string::{StrSliceExecFns, StringExecFns};

verus! {

// ---------------------------------------------------------------------------
// The policy itself
// ---------------------------------------------------------------------------

/// View of [`Config`].
#[verifier::ext_equal]
pub struct ConfigView {
    pub ignored_users: Seq<Seq<char>>,
    pub ignored_processes: Seq<Seq<char>>,
    pub rename: Seq<(Seq<char>, Seq<char>)>,
}

/// The filtering and renaming policy of the local sampler.
#[derive(Debug)]
pub struct Config {
    ignored_users: Vec<String>,
    ignored_processes: Vec<String>,
    rename: Vec<(String, String)>,
}

impl View for Config {
    type V = ConfigView;

    closed spec fn view(&self) -> ConfigView {
        ConfigView {
            ignored_users: self.ignored_users@.map_values(|u: String| u@),
            ignored_processes: self.ignored_processes@.map_values(|p: String| p@),
            rename: self.rename@.map_values(|e: (String, String)| (e.0@, e.1@)),
        }
    }
}

impl Default for Config {
    /// The empty policy: nothing ignored, nothing renamed.
    fn default() -> (r: Self)
        ensures
            r@.ignored_users.len() == 0,
            r@.ignored_processes.len() == 0,
            r@.rename.len() == 0,
    {
        let r = Config { ignored_users: Vec::new(), ignored_processes: Vec::new(), rename: Vec::new() };
        proof {
            assert(r@.ignored_users =~= Seq::<Seq<char>>::empty());
            assert(r@.ignored_processes =~= Seq::<Seq<char>>::empty());
            assert(r@.rename =~= Seq::<(Seq<char>, Seq<char>)>::empty());
        }
        r
    }
}

/// The renaming that an association list prescribes for `key`: the most
/// recently added entry wins, as a map insertion would.
pub open spec fn spec_rename_lookup(rename: Seq<(Seq<char>, Seq<char>)>, key: Seq<char>) -> Option<
    Seq<char>,
>
    decreases rename.len(),
{
    if rename.len() == 0 {
        Option::None
    } else if rename.last().0 == key {
        Option::Some(rename.last().1)
    } else {
        spec_rename_lookup(rename.drop_last(), key)
    }
}

impl Config {
    /// Builds a policy from its parts.
    pub fn new(
        ignored_users: Vec<String>,
        ignored_processes: Vec<String>,
        rename: Vec<(String, String)>,
    ) -> (r: Self)
        ensures
            r@.ignored_users == ignored_users@.map_values(|u: String| u@),
            r@.ignored_processes == ignored_processes@.map_values(|p: String| p@),
            r@.rename == rename@.map_values(|e: (String, String)| (e.0@, e.1@)),
    {
        Config { ignored_users, ignored_processes, rename }
    }

    /// Is `user` in the set of ignored users?
    pub fn is_ignored_user(&self, user: &str) -> (r: bool)
        ensures
            r == self@.ignored_users.contains(user@),
    {
        let mut i: usize = 0;
        while i < self.ignored_users.len()
            invariant
                0 <= i <= self.ignored_users.len(),
                forall|k: int| 0 <= k < i ==> self@.ignored_users[k] != user@,
            decreases self.ignored_users.len() - i,
        {
            if str_eq(self.ignored_users[i].as_str(), user) {
                proof {
                    assert(self@.ignored_users[i as int] == user@);
                }
                return true;
            }
            i = i + 1;
        }
        false
    }

    /// Is `proc` in the set of ignored process names?
    pub fn is_ignored_process(&self, proc: &str) -> (r: bool)
        ensures
            r == self@.ignored_processes.contains(proc@),
    {
        let mut i: usize = 0;
        while i < self.ignored_processes.len()
            invariant
                0 <= i <= self.ignored_processes.len(),
                forall|k: int| 0 <= k < i ==> self@.ignored_processes[k] != proc@,
            decreases self.ignored_processes.len() - i,
        {
            if str_eq(self.ignored_processes[i].as_str(), proc) {
                proof {
                    assert(self@.ignored_processes[i as int] == proc@);
                }
                return true;
            }
            i = i + 1;
        }
        false
    }

    /// The canonical name for `proc`, if the policy renames it.
    pub fn get_canonical_name(&self, proc: &str) -> (r: Option<String>)
        ensures
            match r {
                Option::Some(to) => spec_rename_lookup(self@.rename, proc@) == Option::Some(to@),
                Option::None => spec_rename_lookup(self@.rename, proc@) == Option::None::<
                    Seq<char>,
                >,
            },
    {
        let mut j: usize = self.rename.len();
        proof {
            assert(self@.rename.subrange(0, self.rename.len() as int) =~= self@.rename);
        }
        while j > 0
            invariant
                0 <= j <= self.rename.len(),
                spec_rename_lookup(self@.rename, proc@) == spec_rename_lookup(
                    self@.rename.subrange(0, j as int),
                    proc@,
                ),
            decreases j,
        {
            proof {
                assert(self@.rename.subrange(0, j as int).last() == self@.rename[j - 1]);
                assert(self@.rename.subrange(0, j as int).drop_last() =~= self@.rename.subrange(
                    0,
                    j - 1,
                ));
            }
            if str_eq(self.rename[j - 1].0.as_str(), proc) {
                return Option::Some(self.rename[j - 1].1.clone());
            }
            j = j - 1;
        }
        Option::None
    }
}

// ---------------------------------------------------------------------------
// Parse errors
// ---------------------------------------------------------------------------

/// View of [`ParseConfigError`].
#[verifier::ext_equal]
pub enum ParseConfigErrorView {
    ExpectedColon(int),
    ExpectedRenameArrow(int),
    UnknownKeyword(int, Seq<char>),
    EmptyRest(int),
}

/// A malformed policy file line, with its 1-based line number.
#[derive(PartialEq, Debug, Clone)]
pub enum ParseConfigError {
    ExpectedColon(usize),
    ExpectedRenameArrow(usize),
    UnknownKeyword(usize, String),
    EmptyRest(usize),
}

impl View for ParseConfigError {
    type V = ParseConfigErrorView;

    open spec fn view(&self) -> ParseConfigErrorView {
        match self {
            ParseConfigError::ExpectedColon(ln) => ParseConfigErrorView::ExpectedColon(*ln as int),
            ParseConfigError::ExpectedRenameArrow(ln) => ParseConfigErrorView::ExpectedRenameArrow(
                *ln as int,
            ),
            ParseConfigError::UnknownKeyword(ln, kw) => ParseConfigErrorView::UnknownKeyword(
                *ln as int,
                kw@,
            ),
            ParseConfigError::EmptyRest(ln) => ParseConfigErrorView::EmptyRest(*ln as int),
        }
    }
}

/// The diagnostic text of a parse error.
pub open spec fn spec_config_error_message(e: ParseConfigErrorView) -> Seq<char> {
    match e {
        ParseConfigErrorView::ExpectedColon(ln) => "expected colon after keyword on line "@
            + crate::text::spec_dec(ln),
        ParseConfigErrorView::ExpectedRenameArrow(ln) => "expected rename-arrow (->) on line "@
            + crate::text::spec_dec(ln),
        ParseConfigErrorView::UnknownKeyword(ln, kw) => "encountered unknown keyword \""@ + kw
            + "\" on line "@ + crate::text::spec_dec(ln),
        ParseConfigErrorView::EmptyRest(ln) => "expected additional information on line "@
            + crate::text::spec_dec(ln),
    }
}

impl ParseConfigError {
    /// Renders the error as human-readable text.
    pub fn message(&self) -> (r: String)
        ensures
            r@ == spec_config_error_message(self@),
    {
        match self {
            ParseConfigError::ExpectedColon(ln) => {
                let s = String::from_str("expected colon after keyword on line ");
                s.concat(u64_to_string(*ln as u64).as_str())
            },
            ParseConfigError::ExpectedRenameArrow(ln) => {
                let s = String::from_str("expected rename-arrow (->) on line ");
                s.concat(u64_to_string(*ln as u64).as_str())
            },
            ParseConfigError::UnknownKeyword(ln, kw) => {
                let s = String::from_str("encountered unknown keyword \"");
                let s = s.concat(kw.as_str());
                let s = s.concat("\" on line ");
                s.concat(u64_to_string(*ln as u64).as_str())
            },
            ParseConfigError::EmptyRest(ln) => {
                let s = String::from_str("expected additional information on line ");
                s.concat(u64_to_string(*ln as u64).as_str())
            },
        }
    }
}

// ---------------------------------------------------------------------------
// Parsing
// ---------------------------------------------------------------------------

/// What a single policy line contributes.
pub enum LineOutcome {
    Skip,
    User(Seq<char>),
    Proc(Seq<char>),
    Rename(Seq<char>, Seq<char>),
    FailColon,
    FailArrow,
    FailUnknown(Seq<char>),
    FailEmpty,
}

/// Is `s` the arrow token, or does it start or end with one?
pub open spec fn arrow_at_edge(s: Seq<char>) -> bool {
    (s.len() >= 2 && s.subrange(0, 2) == "->"@) || (s.len() >= 2 && s.subrange(
        s.len() - 2,
        s.len() as int,
    ) == "->"@)
}

/// The outcome of a single (already line-split) policy line.
pub open spec fn line_outcome(line: Seq<char>) -> LineOutcome {
    let l = trim_front(line);
    if l.len() == 0 || l[0] == '#' {
        LineOutcome::Skip
    } else {
        let ci = first_idx(l, ':');
        if ci == l.len() {
            LineOutcome::FailColon
        } else {
            let keyword = l.subrange(0, ci);
            let rest = spec_trim(l.subrange(ci + 1, l.len() as int));
            if rest.len() == 0 || arrow_at_edge(rest) || arrow_at_edge(l) {
                LineOutcome::FailEmpty
            } else if keyword == "ignore-user"@ {
                LineOutcome::User(rest)
            } else if keyword == "ignore-proc"@ {
                LineOutcome::Proc(rest)
            } else if keyword == "rename-proc"@ {
                let ai = first_idx2(rest, '-', '>');
                if ai + 1 < rest.len() {
                    LineOutcome::Rename(
                        spec_trim(rest.subrange(0, ai)),
                        spec_trim(rest.subrange(ai + 2, rest.len() as int)),
                    )
                } else {
                    LineOutcome::FailArrow
                }
            } else {
                LineOutcome::FailUnknown(keyword)
            }
        }
    }
}

/// Folds [`line_outcome`] over the lines from index `i` on, extending `acc`;
/// line numbers in errors are 1-based.
pub open spec fn spec_parse_config_from(
    lines: Seq<Seq<char>>,
    i: int,
    acc: ConfigView,
) -> Result<ConfigView, ParseConfigErrorView>
    decreases lines.len() - i,
{
    if i < 0 || i >= lines.len() {
        Result::Ok(acc)
    } else {
        match line_outcome(lines[i]) {
            LineOutcome::Skip => spec_parse_config_from(lines, i + 1, acc),
            LineOutcome::User(u) => spec_parse_config_from(
                lines,
                i + 1,
                ConfigView { ignored_users: acc.ignored_users.push(u), ..acc },
            ),
            LineOutcome::Proc(p) => spec_parse_config_from(
                lines,
                i + 1,
                ConfigView { ignored_processes: acc.ignored_processes.push(p), ..acc },
            ),
            LineOutcome::Rename(from, to) => spec_parse_config_from(
                lines,
                i + 1,
                ConfigView { rename: acc.rename.push((from, to)), ..acc },
            ),
            LineOutcome::FailColon => Result::Err(ParseConfigErrorView::ExpectedColon(i + 1)),
            LineOutcome::FailArrow => Result::Err(
                ParseConfigErrorView::ExpectedRenameArrow(i + 1),
            ),
            LineOutcome::FailUnknown(kw) => Result::Err(
                ParseConfigErrorView::UnknownKeyword(i + 1, kw),
            ),
            LineOutcome::FailEmpty => Result::Err(ParseConfigErrorView::EmptyRest(i + 1)),
        }
    }
}

/// The policy denoted by a whole policy file.
pub open spec fn spec_parse_config(s: Seq<char>) -> Result<ConfigView, ParseConfigErrorView> {
    spec_parse_config_from(
        spec_lines(s),
        0,
        ConfigView {
            ignored_users: Seq::empty(),
            ignored_processes: Seq::empty(),
            rename: Seq::empty(),
        },
    )
}

/// Exec mirror of [`LineOutcome`].
enum LineStep {
    Skip,
    User(String),
    Proc(String),
    Rename(String, String),
    FailColon,
    FailArrow,
    FailUnknown(String),
    FailEmpty,
}

impl View for LineStep {
    type V = LineOutcome;

    closed spec fn view(&self) -> LineOutcome {
        match self {
            LineStep::Skip => LineOutcome::Skip,
            LineStep::User(u) => LineOutcome::User(u@),
            LineStep::Proc(p) => LineOutcome::Proc(p@),
            LineStep::Rename(f, t) => LineOutcome::Rename(f@, t@),
            LineStep::FailColon => LineOutcome::FailColon,
            LineStep::FailArrow => LineOutcome::FailArrow,
            LineStep::FailUnknown(kw) => LineOutcome::FailUnknown(kw@),
            LineStep::FailEmpty => LineOutcome::FailEmpty,
        }
    }
}

/// Decides [`arrow_at_edge`].
fn arrow_at_edge_of(s: &str) -> (r: bool)
    ensures
        r == arrow_at_edge(s@),
{
    let len = s.unicode_len();
    if len < 2 {
        proof {
            assert(!arrow_at_edge(s@));
        }
        return false;
    }
    let head = s.substring_char(0, 2);
    let tail = s.substring_char(len - 2, len);
    let arrow = "->";
    str_eq(head, arrow) || str_eq(tail, arrow)
}

/// Processes one policy line.
fn line_step(line: &str) -> (r: LineStep)
    ensures
        r@ == line_outcome(line@),
{
    let l = trim_start_of(line);
    let llen = l.unicode_len();
    if llen == 0 {
        return LineStep::Skip;
    }
    if l.get_char(0) == '#' {
        return LineStep::Skip;
    }
    let ci = find_char_from(l, 0, ':');
    proof {
        assert(l@.skip(0) =~= l@);
    }
    if ci == llen {
        return LineStep::FailColon;
    }
    let keyword = l.substring_char(0, ci);
    let rest = trim_of(l.substring_char(ci + 1, llen));
    let rlen = rest.unicode_len();
    if rlen == 0 || arrow_at_edge_of(rest) || arrow_at_edge_of(l) {
        return LineStep::FailEmpty;
    }
    if str_eq(keyword, "ignore-user") {
        return LineStep::User(rest.to_owned());
    }
    if str_eq(keyword, "ignore-proc") {
        return LineStep::Proc(rest.to_owned());
    }
    if str_eq(keyword, "rename-proc") {
        let ai = find_pair(rest, '-', '>');
        if ai < rlen && ai + 1 < rlen {
            let from = trim_of(rest.substring_char(0, ai));
            let to = trim_of(rest.substring_char(ai + 2, rlen));
            return LineStep::Rename(from.to_owned(), to.to_owned());
        } else {
            return LineStep::FailArrow;
        }
    }
    LineStep::FailUnknown(keyword.to_owned())
}

impl Config {
    /// Parses a policy file: `ignore-user: <name>`, `ignore-proc: <name>` and
    /// `rename-proc: <from> -> <to>` declarations, with `#` comment lines and
    /// blank lines ignored. Returns the first malformed line as an error.
    pub fn from_str(s: &str) -> (r: Result<Config, ParseConfigError>)
        ensures
            match r {
                Result::Ok(c) => spec_parse_config(s@) == Result::Ok::<
                    ConfigView,
                    ParseConfigErrorView,
                >(c@),
                Result::Err(e) => spec_parse_config(s@) == Result::Err::<
                    ConfigView,
                    ParseConfigErrorView,
                >(e@),
            },
    {
        let lines = split_lines(s);
        let ghost linesv = lines@.map_values(|l: String| l@);
        let mut acc = Config::default();
        let mut i: usize = 0;
        proof {
            assert(acc@ =~= (ConfigView {
                ignored_users: Seq::empty(),
                ignored_processes: Seq::empty(),
                rename: Seq::empty(),
            }));
        }
        while i < lines.len()
            invariant
                0 <= i <= lines.len(),
                linesv == lines@.map_values(|l: String| l@),
                spec_parse_config(s@) == spec_parse_config_from(linesv, i as int, acc@),
            decreases lines.len() - i,
        {
            let ghost accv = acc@;
            let step = line_step(lines[i].as_str());
            match step {
                LineStep::Skip => {},
                LineStep::User(u) => {
                    acc.ignored_users.push(u);
                    proof {
                        assert(acc@.ignored_users =~= accv.ignored_users.push(u@));
                        assert(acc@ =~= (ConfigView {
                            ignored_users: accv.ignored_users.push(u@),
                            ..accv
                        }));
                    }
                },
                LineStep::Proc(p) => {
                    acc.ignored_processes.push(p);
                    proof {
                        assert(acc@.ignored_processes =~= accv.ignored_processes.push(p@));
                        assert(acc@ =~= (ConfigView {
                            ignored_processes: accv.ignored_processes.push(p@),
                            ..accv
                        }));
                    }
                },
                LineStep::Rename(from, to) => {
                    acc.rename.push((from, to));
                    proof {
                        assert(acc@.rename =~= accv.rename.push(
                            (acc.rename@.last().0@, acc.rename@.last().1@),
                        ));
                        assert(acc@ =~= (ConfigView {
                            rename: accv.rename.push(
                                (acc.rename@.last().0@, acc.rename@.last().1@),
                            ),
                            ..accv
                        }));
                    }
                },
                LineStep::FailColon => {
                    return Result::Err(ParseConfigError::ExpectedColon(i + 1));
                },
                LineStep::FailArrow => {
                    return Result::Err(ParseConfigError::ExpectedRenameArrow(i + 1));
                },
                LineStep::FailUnknown(kw) => {
                    return Result::Err(ParseConfigError::UnknownKeyword(i + 1, kw));
                },
                LineStep::FailEmpty => {
                    return Result::Err(ParseConfigError::EmptyRest(i + 1));
                },
            }
            i = i + 1;
        }
        Result::Ok(acc)
    }
}

} // verus!
