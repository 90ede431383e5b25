//! The static roster of machines: a line-oriented configuration with
//! `[room]` headers, `hostname: note` entries and `#` comments.

use vstd::prelude::*;

use crate::model;
use crate::model::{spec_owner_of_note, Owner, OwnerView};
use crate::text::{
    find_char_from, first_idx, spec_dec, spec_lines, spec_trim, split_lines, trim_of,
    u64_to_string,
};
use vstd::string::{StrSliceExecFns, StringExecFns};

verus! {

/// View of a roster [`MachineDefinition`].
#[verifier::ext_equal]
pub struct RosterEntryView {
    pub room: Seq<char>,
    pub hostname: Seq<char>,
    pub note: Option<Seq<char>>,
}

/// One machine of the roster: its hostname, its room, and the free-text
/// ownership note, if the roster has one.
#[derive(PartialEq, Clone, Debug)]
pub struct MachineDefinition {
    pub room: String,
    pub hostname: String,
    pub note: Option<String>,
}

impl View for MachineDefinition {
    type V = RosterEntryView;

    open spec fn view(&self) -> RosterEntryView {
        RosterEntryView {
            room: self.room@,
            hostname: self.hostname@,
            note: match self.note {
                Option::Some(ref n) => Option::Some(n@),
                Option::None => Option::None,
            },
        }
    }
}

/// The owner denoted by an optional ownership note.
pub open spec fn owner_of_opt_note(note: Option<Seq<char>>) -> OwnerView {
    match note {
        Option::Some(n) => spec_owner_of_note(n),
        Option::None => OwnerView::Unowned,
    }
}

impl MachineDefinition {
    /// Turns a roster entry into a machine identity by parsing its note.
    pub fn into_model(self) -> (r: model::MachineDefinition)
        ensures
            r@.hostname == self@.hostname,
            r@.room == self@.room,
            r@.owner == owner_of_opt_note(self@.note),
    {
        let owner = match &self.note {
            Option::Some(note) => Owner::from_note(note.as_str()),
            Option::None => Owner::Unowned,
        };
        model::MachineDefinition { hostname: self.hostname, owner, room: self.room }
    }
}

/// The whole roster.
#[derive(PartialEq, Clone, Debug)]
pub struct MachineDefinitions(pub Vec<MachineDefinition>);

impl View for MachineDefinitions {
    type V = Seq<RosterEntryView>;

    open spec fn view(&self) -> Seq<RosterEntryView> {
        self.0@.map_values(|m: MachineDefinition| m@)
    }
}

// ---------------------------------------------------------------------------
// Parsing
// ---------------------------------------------------------------------------

/// View of [`ParseRosterError`].
#[verifier::ext_equal]
pub enum ParseRosterErrorView {
    ExpectedColon(int, Seq<char>),
}

/// A malformed roster line, with its 1-based line number and the offending
/// text (comments already stripped).
#[derive(PartialEq, Debug, Clone)]
pub enum ParseRosterError {
    ExpectedColon(usize, String),
}

impl View for ParseRosterError {
    type V = ParseRosterErrorView;

    open spec fn view(&self) -> ParseRosterErrorView {
        match self {
            ParseRosterError::ExpectedColon(ln, l) => ParseRosterErrorView::ExpectedColon(
                *ln as int,
                l@,
            ),
        }
    }
}

/// The diagnostic text of a roster parse error.
pub open spec fn spec_roster_error_message(e: ParseRosterErrorView) -> Seq<char> {
    match e {
        ParseRosterErrorView::ExpectedColon(ln, l) => "expected a 'hostname: note' line on line "@
            + spec_dec(ln) + ", but found \""@ + l + "\""@,
    }
}

impl ParseRosterError {
    /// Renders the error as human-readable text.
    pub fn message(&self) -> (r: String)
        ensures
            r@ == spec_roster_error_message(self@),
    {
        match self {
            ParseRosterError::ExpectedColon(ln, l) => {
                let s = String::from_str("expected a 'hostname: note' line on line ");
                let s = s.concat(u64_to_string(*ln as u64).as_str());
                let s = s.concat(", but found \"");
                let s = s.concat(l.as_str());
                s.concat("\"")
            },
        }
    }
}

/// What a single roster line contributes.
pub enum RosterLine {
    Skip,
    Header(Seq<char>),
    Entry(Seq<char>, Option<Seq<char>>),
    Bad(Seq<char>),
}

/// The contribution of a single roster line: comments stripped, blank lines
/// skipped, `[room]` headers recognised, and `hostname: note` entries split;
/// a non-header line without a colon is malformed.
pub open spec fn roster_line(line: Seq<char>) -> RosterLine {
    let l = spec_trim(line.subrange(0, first_idx(line, '#')));
    if l.len() == 0 {
        RosterLine::Skip
    } else if l.len() >= 2 && l[0] == '[' && l.last() == ']' {
        RosterLine::Header(spec_trim(l.subrange(1, l.len() - 1)))
    } else {
        let ci = first_idx(l, ':');
        if ci == l.len() {
            RosterLine::Bad(l)
        } else {
            let note = spec_trim(l.subrange(ci + 1, l.len() as int));
            RosterLine::Entry(
                spec_trim(l.subrange(0, ci)),
                if note.len() == 0 {
                    Option::None
                } else {
                    Option::Some(note)
                },
            )
        }
    }
}

/// The room entries before any header belong to.
pub open spec fn orphan_room() -> Seq<char> {
    "orphan"@
}

/// Folds [`roster_line`] over the lines from index `i` on. `room` is the room
/// of the last header seen, if any; line numbers in errors are 1-based.
pub open spec fn spec_roster_from(
    lines: Seq<Seq<char>>,
    i: int,
    room: Option<Seq<char>>,
    acc: Seq<RosterEntryView>,
) -> Result<Seq<RosterEntryView>, ParseRosterErrorView>
    decreases lines.len() - i,
{
    if i < 0 || i >= lines.len() {
        Result::Ok(acc)
    } else {
        match roster_line(lines[i]) {
            RosterLine::Skip => spec_roster_from(lines, i + 1, room, acc),
            RosterLine::Header(h) => spec_roster_from(lines, i + 1, Option::Some(h), acc),
            RosterLine::Entry(hostname, note) => spec_roster_from(
                lines,
                i + 1,
                room,
                acc.push(
                    RosterEntryView {
                        room: match room {
                            Option::Some(r) => r,
                            Option::None => orphan_room(),
                        },
                        hostname,
                        note,
                    },
                ),
            ),
            RosterLine::Bad(l) => Result::Err(ParseRosterErrorView::ExpectedColon(i + 1, l)),
        }
    }
}

/// The roster denoted by a whole roster file.
pub open spec fn spec_parse_roster(s: Seq<char>) -> Result<
    Seq<RosterEntryView>,
    ParseRosterErrorView,
> {
    spec_roster_from(spec_lines(s), 0, Option::None, Seq::empty())
}

/// Exec mirror of [`RosterLine`].
enum RosterStep {
    Skip,
    Header(String),
    Entry(String, Option<String>),
    Bad(String),
}

impl View for RosterStep {
    type V = RosterLine;

    closed spec fn view(&self) -> RosterLine {
        match self {
            RosterStep::Skip => RosterLine::Skip,
            RosterStep::Header(h) => RosterLine::Header(h@),
            RosterStep::Entry(h, n) => RosterLine::Entry(
                h@,
                match n {
                    Option::Some(note) => Option::Some(note@),
                    Option::None => Option::None,
                },
            ),
            RosterStep::Bad(l) => RosterLine::Bad(l@),
        }
    }
}

/// Processes one roster line.
fn roster_step(line: &str) -> (r: RosterStep)
    ensures
        r@ == roster_line(line@),
{
    let hash = find_char_from(line, 0, '#');
    proof {
        assert(line@.skip(0) =~= line@);
    }
    let l = trim_of(line.substring_char(0, hash));
    let llen = l.unicode_len();
    if llen == 0 {
        return RosterStep::Skip;
    }
    if llen >= 2 && l.get_char(0) == '[' && l.get_char(llen - 1) == ']' {
        let room = trim_of(l.substring_char(1, llen - 1));
        return RosterStep::Header(room.to_owned());
    }
    let ci = find_char_from(l, 0, ':');
    proof {
        assert(l@.skip(0) =~= l@);
    }
    if ci == llen {
        return RosterStep::Bad(l.to_owned());
    }
    let hostname = trim_of(l.substring_char(0, ci));
    let note = trim_of(l.substring_char(ci + 1, llen));
    let note = if note.unicode_len() == 0 {
        Option::None
    } else {
        Option::Some(note.to_owned())
    };
    RosterStep::Entry(hostname.to_owned(), note)
}

impl MachineDefinitions {
    /// Parses the text of a roster file: a machine line without a colon is
    /// malformed and makes the whole roster invalid.
    pub fn from_config_str(s: &str) -> (r: Result<MachineDefinitions, ParseRosterError>)
        ensures
            match r {
                Result::Ok(defs) => spec_parse_roster(s@) == Result::Ok::<
                    Seq<RosterEntryView>,
                    ParseRosterErrorView,
                >(defs@),
                Result::Err(e) => spec_parse_roster(s@) == Result::Err::<
                    Seq<RosterEntryView>,
                    ParseRosterErrorView,
                >(e@),
            },
    {
        let lines = split_lines(s);
        let ghost linesv = lines@.map_values(|l: String| l@);
        let mut acc: Vec<MachineDefinition> = Vec::new();
        let mut room: Option<String> = Option::None;
        let mut i: usize = 0;
        proof {
            assert(acc@.map_values(|m: MachineDefinition| m@) =~= Seq::<RosterEntryView>::empty());
        }
        while i < lines.len()
            invariant
                0 <= i <= lines.len(),
                linesv == lines@.map_values(|l: String| l@),
                spec_parse_roster(s@) == spec_roster_from(
                    linesv,
                    i as int,
                    match room {
                        Option::Some(ref rm) => Option::Some(rm@),
                        Option::None => Option::None,
                    },
                    acc@.map_values(|m: MachineDefinition| m@),
                ),
            decreases lines.len() - i,
        {
            let ghost accv = acc@.map_values(|m: MachineDefinition| m@);
            let step = roster_step(lines[i].as_str());
            match step {
                RosterStep::Skip => {},
                RosterStep::Header(h) => {
                    room = Option::Some(h);
                },
                RosterStep::Entry(hostname, note) => {
                    let rm = match &room {
                        Option::Some(r) => r.clone(),
                        Option::None => String::from_str("orphan"),
                    };
                    let entry = MachineDefinition { room: rm, hostname, note };
                    acc.push(entry);
                    proof {
                        assert(acc@.map_values(|m: MachineDefinition| m@) =~= accv.push(
                            acc@.last()@,
                        ));
                    }
                },
                RosterStep::Bad(l) => {
                    return Result::Err(ParseRosterError::ExpectedColon(i + 1, l));
                },
            }
            i = i + 1;
        }
        Result::Ok(MachineDefinitions(acc))
    }
}

} // verus!
