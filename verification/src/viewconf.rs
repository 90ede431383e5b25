//! The viewer's own configuration: a line-oriented file with `[general]`
//! and `[colors]` sections, `keyword value` declarations, `;` comments and
//! a multi-line hotness gradient list.
//!
//! Colour values are kept as text: whether a value names a real colour is
//! for the rendering layer to decide.

use vstd::prelude::*;

use crate::text::{
    find_char_from, find_space, first_idx, first_space_idx, spec_dec, spec_lines, spec_trim,
    split_lines, str_eq, trim_of, u64_to_string,
};
use vstd::arithmetic::div_mod::{lemma_div_is_ordered, lemma_div_multiples_vanish};
use vstd::string::{StrSliceExecFns, StringExecFns};

verus! {

// ---------------------------------------------------------------------------
// Comment stripping and message helpers
// ---------------------------------------------------------------------------

/// The comment-stripped, trimmed content of a line, if any is left.
pub open spec fn spec_strip_comments(line: Seq<char>) -> Option<Seq<char>> {
    let t = spec_trim(line.subrange(0, first_idx(line, ';')));
    if t.len() == 0 {
        Option::None
    } else {
        Option::Some(t)
    }
}

/// Strips a `;` comment and surrounding whitespace; returns the remaining
/// content, or nothing for a blank or comment-only line.
pub fn strip_comments(line: &str) -> (r: Option<&str>)
    ensures
        match r {
            Option::Some(l) => spec_strip_comments(line@) == Option::Some(l@),
            Option::None => spec_strip_comments(line@) is None,
        },
{
    let ci = find_char_from(line, 0, ';');
    proof {
        assert(line@.skip(0) =~= line@);
    }
    let l = trim_of(line.substring_char(0, ci));
    if l.unicode_len() == 0 {
        Option::None
    } else {
        Option::Some(l)
    }
}

/// The text of a value-parse failure message.
pub open spec fn spec_parse_failure_message(ln: int, value: Seq<char>, expected: Seq<char>) -> Seq<
    char,
> {
    "could not parse \""@ + value + "\" as "@ + expected + " on line "@ + spec_dec(ln)
}

/// Formats a value-parse failure message.
pub fn f(ln: usize, value: &str, expected: &str) -> (r: String)
    ensures
        r@ == spec_parse_failure_message(ln as int, value@, expected@),
{
    let s = String::from_str("could not parse \"");
    let s = s.concat(value);
    let s = s.concat("\" as ");
    let s = s.concat(expected);
    let s = s.concat(" on line ");
    let s = s.concat(u64_to_string(ln as u64).as_str());
    s
}

/// Formats a colour-parse failure message.
pub fn c(ln: usize, value: &str) -> (r: String)
    ensures
        r@ == spec_parse_failure_message(ln as int, value@, "color"@),
{
    f(ln, value, "color")
}

// ---------------------------------------------------------------------------
// Colour values
// ---------------------------------------------------------------------------

/// Does this text name a colour? The meaning is whatever the terminal
/// renderer's colour parser accepts: named colours, indexed colours and
/// `#rrggbb` values.
pub uninterp spec fn color_ok(s: Seq<char>) -> bool;

/// Relies on ratatui's `Color::from_str`: whether a value parses as a
/// colour depends on the characters alone.
#[verifier::external_body]
fn is_color_value(s: &str) -> (r: bool)
    ensures
        r == color_ok(s@),
{
    <ratatui::style::Color as core::str::FromStr>::from_str(s).is_ok()
}

// ---------------------------------------------------------------------------
// The configuration
// ---------------------------------------------------------------------------

/// View of [`Colors`].
#[verifier::ext_equal]
pub struct ColorsView {
    pub divider: Seq<char>,
    pub user: Seq<char>,
    pub hostname: Seq<char>,
    pub os: Seq<char>,
    pub clock: Seq<char>,
    pub gauge: Seq<char>,
    pub student: Seq<char>,
    pub visitor: Seq<char>,
    pub reservation: Seq<char>,
    pub owner: Seq<char>,
    pub room: Seq<char>,
    pub cores_active: Seq<char>,
    pub cores_divider: Seq<char>,
    pub cores_total: Seq<char>,
    pub cores_bg: Seq<char>,
    pub active_user: Seq<char>,
    pub active_task: Seq<char>,
    pub active_cores: Seq<char>,
    pub stats: Seq<char>,
    pub notes: Seq<char>,
    pub hotness_gradient: Seq<Seq<char>>,
}

/// The viewer's colour scheme, as textual colour values.
#[derive(Clone, Debug)]
pub struct Colors {
    pub divider: String,
    pub user: String,
    pub hostname: String,
    pub os: String,
    pub clock: String,
    pub gauge: String,
    pub student: String,
    pub visitor: String,
    pub reservation: String,
    pub owner: String,
    pub room: String,
    pub cores_active: String,
    pub cores_divider: String,
    pub cores_total: String,
    pub cores_bg: String,
    pub active_user: String,
    pub active_task: String,
    pub active_cores: String,
    pub stats: String,
    pub notes: String,
    pub hotness_gradient: Vec<String>,
}

impl View for Colors {
    type V = ColorsView;

    open spec fn view(&self) -> ColorsView {
        ColorsView {
            divider: self.divider@,
            user: self.user@,
            hostname: self.hostname@,
            os: self.os@,
            clock: self.clock@,
            gauge: self.gauge@,
            student: self.student@,
            visitor: self.visitor@,
            reservation: self.reservation@,
            owner: self.owner@,
            room: self.room@,
            cores_active: self.cores_active@,
            cores_divider: self.cores_divider@,
            cores_total: self.cores_total@,
            cores_bg: self.cores_bg@,
            active_user: self.active_user@,
            active_task: self.active_task@,
            active_cores: self.active_cores@,
            stats: self.stats@,
            notes: self.notes@,
            hotness_gradient: self.hotness_gradient@.map_values(|g: String| g@),
        }
    }
}

/// The default gradient colour values.
pub open spec fn default_gradient() -> Seq<Seq<char>> {
    seq![
        "#b0cd75"@,
        "#c0cc6c"@,
        "#cfcb63"@,
        "#d9cf69"@,
        "#e3d26f"@,
        "#d7ae67"@,
        "#ca895f"@,
        "#c56355"@,
        "#bf3d4a"@,
        "#c41829"@,
    ]
}

/// The built-in colour scheme, as a view.
pub open spec fn default_colors_view() -> ColorsView {
    ColorsView {
        divider: "gray"@,
        user: "white"@,
        hostname: "gray"@,
        os: "darkgray"@,
        clock: "darkgray"@,
        gauge: "red"@,
        student: "lightcyan"@,
        visitor: "lightmagenta"@,
        reservation: "gray"@,
        owner: "white"@,
        room: "darkgray"@,
        cores_active: "#eeeeee"@,
        cores_divider: "#aaaaaa"@,
        cores_total: "#cccccc"@,
        cores_bg: "#999999"@,
        active_user: "gray"@,
        active_task: "gray"@,
        active_cores: "gray"@,
        stats: "yellow"@,
        notes: "#70abaf"@,
        hotness_gradient: default_gradient(),
    }
}

impl Default for Colors {
    /// The built-in colour scheme.
    fn default() -> (r: Self)
        ensures
            r@ == default_colors_view(),
    {
        let mut gradient: Vec<String> = Vec::new();
        gradient.push(String::from_str("#b0cd75"));
        gradient.push(String::from_str("#c0cc6c"));
        gradient.push(String::from_str("#cfcb63"));
        gradient.push(String::from_str("#d9cf69"));
        gradient.push(String::from_str("#e3d26f"));
        gradient.push(String::from_str("#d7ae67"));
        gradient.push(String::from_str("#ca895f"));
        gradient.push(String::from_str("#c56355"));
        gradient.push(String::from_str("#bf3d4a"));
        gradient.push(String::from_str("#c41829"));
        let r = Colors {
            divider: String::from_str("gray"),
            user: String::from_str("white"),
            hostname: String::from_str("gray"),
            os: String::from_str("darkgray"),
            clock: String::from_str("darkgray"),
            gauge: String::from_str("red"),
            student: String::from_str("lightcyan"),
            visitor: String::from_str("lightmagenta"),
            reservation: String::from_str("gray"),
            owner: String::from_str("white"),
            room: String::from_str("darkgray"),
            cores_active: String::from_str("#eeeeee"),
            cores_divider: String::from_str("#aaaaaa"),
            cores_total: String::from_str("#cccccc"),
            cores_bg: String::from_str("#999999"),
            active_user: String::from_str("gray"),
            active_task: String::from_str("gray"),
            active_cores: String::from_str("gray"),
            stats: String::from_str("yellow"),
            notes: String::from_str("#70abaf"),
            hotness_gradient: gradient,
        };
        proof {
            assert(r@.hotness_gradient =~= default_gradient());
            assert(r@ =~= default_colors_view());
        }
        r
    }
}

/// View of [`Config`].
#[verifier::ext_equal]
pub struct ConfigView {
    pub colors: ColorsView,
    pub show_room: bool,
    pub data_path: Seq<char>,
}

/// The viewer's configuration.
#[derive(Clone, Debug)]
pub struct Config {
    pub colors: Colors,
    pub show_room: bool,
    pub data_path: String,
}

impl View for Config {
    type V = ConfigView;

    open spec fn view(&self) -> ConfigView {
        ConfigView { colors: self.colors@, show_room: self.show_room, data_path: self.data_path@ }
    }
}

impl Default for Config {
    /// The built-in configuration: default colours, rooms hidden, and the
    /// conventional snapshot path.
    fn default() -> (r: Self)
        ensures
            r@.colors == default_colors_view(),
            r@.show_room == false,
            r@.data_path == "/martini/sshuser/mu/mu.dat"@,
    {
        Config {
            colors: Colors::default(),
            show_room: false,
            data_path: String::from_str("/martini/sshuser/mu/mu.dat"),
        }
    }
}

// ---------------------------------------------------------------------------
// Parsing
// ---------------------------------------------------------------------------

/// Which part of the file the parser is in.
#[derive(Clone, Copy, Debug, PartialEq, Eq, Structural)]
pub enum Section {
    Top,
    General,
    Colors,
    Gradient,
}

/// View of [`ViewConfigError`].
#[verifier::ext_equal]
pub enum ViewConfigErrorView {
    UnknownHeader(int, Seq<char>),
    OrphanLine(int, Seq<char>),
    BadDeclaration(int, Seq<char>),
    UnknownKeyword(int, Seq<char>),
    UnknownColorKeyword(int, Seq<char>),
    BadBool(int, Seq<char>),
    BadColor(int, Seq<char>),
    ExpectedList(int, Seq<char>),
}

/// A malformed viewer-configuration line, with its 0-based line number.
#[derive(Debug, Clone)]
pub enum ViewConfigError {
    UnknownHeader(usize, String),
    OrphanLine(usize, String),
    BadDeclaration(usize, String),
    UnknownKeyword(usize, String),
    UnknownColorKeyword(usize, String),
    BadBool(usize, String),
    BadColor(usize, String),
    ExpectedList(usize, String),
}

impl View for ViewConfigError {
    type V = ViewConfigErrorView;

    open spec fn view(&self) -> ViewConfigErrorView {
        match self {
            ViewConfigError::UnknownHeader(ln, t) => ViewConfigErrorView::UnknownHeader(
                *ln as int,
                t@,
            ),
            ViewConfigError::OrphanLine(ln, t) => ViewConfigErrorView::OrphanLine(*ln as int, t@),
            ViewConfigError::BadDeclaration(ln, t) => ViewConfigErrorView::BadDeclaration(
                *ln as int,
                t@,
            ),
            ViewConfigError::UnknownKeyword(ln, t) => ViewConfigErrorView::UnknownKeyword(
                *ln as int,
                t@,
            ),
            ViewConfigError::UnknownColorKeyword(ln, t) =>
                ViewConfigErrorView::UnknownColorKeyword(*ln as int, t@),
            ViewConfigError::BadBool(ln, t) => ViewConfigErrorView::BadBool(*ln as int, t@),
            ViewConfigError::BadColor(ln, t) => ViewConfigErrorView::BadColor(*ln as int, t@),
            ViewConfigError::ExpectedList(ln, t) => ViewConfigErrorView::ExpectedList(
                *ln as int,
                t@,
            ),
        }
    }
}

/// The diagnostic text of a viewer-configuration parse error.
pub open spec fn spec_viewconf_error_message(e: ViewConfigErrorView) -> Seq<char> {
    match e {
        ViewConfigErrorView::UnknownHeader(ln, h) => "encountered an unknown config header on line "@
            + spec_dec(ln) + ": \""@ + h + "\""@,
        ViewConfigErrorView::OrphanLine(ln, l) => "encountered a declaration not under a header at line "@
            + spec_dec(ln) + ": \""@ + l + "\""@,
        ViewConfigErrorView::BadDeclaration(ln, l) => "expected a declaration of the form 'keyword value' on line "@
            + spec_dec(ln) + ", but found \""@ + l + "\""@,
        ViewConfigErrorView::UnknownKeyword(ln, kw) => "unknown keyword \""@ + kw + "\" on line "@
            + spec_dec(ln),
        ViewConfigErrorView::UnknownColorKeyword(ln, kw) => "unknown color keyword \""@ + kw
            + "\" on line "@ + spec_dec(ln),
        ViewConfigErrorView::BadBool(ln, v) => spec_parse_failure_message(ln, v, "bool"@),
        ViewConfigErrorView::BadColor(ln, v) => spec_parse_failure_message(ln, v, "color"@),
        ViewConfigErrorView::ExpectedList(ln, v) => "expected a list starting with '[' at line "@
            + spec_dec(ln) + ", but found \""@ + v + "\""@,
    }
}

impl ViewConfigError {
    /// Renders the error as human-readable text.
    pub fn message(&self) -> (r: String)
        ensures
            r@ == spec_viewconf_error_message(self@),
    {
        match self {
            ViewConfigError::UnknownHeader(ln, h) => {
                let s = String::from_str("encountered an unknown config header on line ");
                let s = s.concat(u64_to_string(*ln as u64).as_str());
                let s = s.concat(": \"");
                let s = s.concat(h.as_str());
                s.concat("\"")
            },
            ViewConfigError::OrphanLine(ln, l) => {
                let s = String::from_str("encountered a declaration not under a header at line ");
                let s = s.concat(u64_to_string(*ln as u64).as_str());
                let s = s.concat(": \"");
                let s = s.concat(l.as_str());
                s.concat("\"")
            },
            ViewConfigError::BadDeclaration(ln, l) => {
                let s = String::from_str(
                    "expected a declaration of the form 'keyword value' on line ",
                );
                let s = s.concat(u64_to_string(*ln as u64).as_str());
                let s = s.concat(", but found \"");
                let s = s.concat(l.as_str());
                s.concat("\"")
            },
            ViewConfigError::UnknownKeyword(ln, kw) => {
                let s = String::from_str("unknown keyword \"");
                let s = s.concat(kw.as_str());
                let s = s.concat("\" on line ");
                s.concat(u64_to_string(*ln as u64).as_str())
            },
            ViewConfigError::UnknownColorKeyword(ln, kw) => {
                let s = String::from_str("unknown color keyword \"");
                let s = s.concat(kw.as_str());
                let s = s.concat("\" on line ");
                s.concat(u64_to_string(*ln as u64).as_str())
            },
            ViewConfigError::BadBool(ln, v) => f(*ln, v.as_str(), "bool"),
            ViewConfigError::BadColor(ln, v) => c(*ln, v.as_str()),
            ViewConfigError::ExpectedList(ln, v) => {
                let s = String::from_str("expected a list starting with '[' at line ");
                let s = s.concat(u64_to_string(*ln as u64).as_str());
                let s = s.concat(", but found \"");
                let s = s.concat(v.as_str());
                s.concat("\"")
            },
        }
    }
}

/// What one line does to the parser state: the general-section declarations.
pub open spec fn vc_general(acc: ConfigView, l: Seq<char>, ln: int) -> Result<
    (Section, ConfigView),
    ViewConfigErrorView,
> {
    let di = first_space_idx(l);
    if di == l.len() {
        Result::Err(ViewConfigErrorView::BadDeclaration(ln, l))
    } else {
        let kw = l.subrange(0, di);
        let value = spec_trim(l.subrange(di + 1, l.len() as int));
        if kw == "show_room"@ {
            if value == "true"@ {
                Result::Ok((Section::General, ConfigView { show_room: true, ..acc }))
            } else if value == "false"@ {
                Result::Ok((Section::General, ConfigView { show_room: false, ..acc }))
            } else {
                Result::Err(ViewConfigErrorView::BadBool(ln, value))
            }
        } else if kw == "data_path"@ {
            Result::Ok((Section::General, ConfigView { data_path: value, ..acc }))
        } else {
            Result::Err(ViewConfigErrorView::UnknownKeyword(ln, kw))
        }
    }
}

/// What one line does to the parser state: the colors-section declarations.
pub open spec fn vc_colors(acc: ConfigView, l: Seq<char>, ln: int) -> Result<
    (Section, ConfigView),
    ViewConfigErrorView,
> {
    let di = first_space_idx(l);
    if di == l.len() {
        Result::Err(ViewConfigErrorView::BadDeclaration(ln, l))
    } else {
        let kw = l.subrange(0, di);
        let value = spec_trim(l.subrange(di + 1, l.len() as int));
        vc_colors_kw(acc, kw, value, ln)
    }
}

/// What one line does to the parser state.
pub open spec fn vc_step(state: Section, acc: ConfigView, line: Seq<char>, ln: int) -> Result<
    (Section, ConfigView),
    ViewConfigErrorView,
> {
    if state == Section::Gradient {
        if first_idx(line, ']') < line.len() {
            Result::Ok((Section::Colors, acc))
        } else if !color_ok(spec_trim(line)) {
            Result::Err(ViewConfigErrorView::BadColor(ln, spec_trim(line)))
        } else {
            Result::Ok(
                (
                    Section::Gradient,
                    ConfigView {
                        colors: ColorsView {
                            hotness_gradient: acc.colors.hotness_gradient.push(spec_trim(line)),
                            ..acc.colors
                        },
                        ..acc
                    },
                ),
            )
        }
    } else {
        match spec_strip_comments(line) {
            Option::None => Result::Ok((state, acc)),
            Option::Some(l) => {
                if l[0] == '[' {
                    if l.len() >= 2 && l.last() == ']' {
                        let h = spec_trim(l.subrange(1, l.len() - 1));
                        if h == "general"@ {
                            Result::Ok((Section::General, acc))
                        } else if h == "colors"@ {
                            Result::Ok((Section::Colors, acc))
                        } else {
                            Result::Err(ViewConfigErrorView::UnknownHeader(ln, h))
                        }
                    } else {
                        Result::Err(ViewConfigErrorView::OrphanLine(ln, l))
                    }
                } else if state == Section::Top {
                    Result::Err(ViewConfigErrorView::OrphanLine(ln, l))
                } else if state == Section::General {
                    vc_general(acc, l, ln)
                } else {
                    vc_colors(acc, l, ln)
                }
            },
        }
    }
}

/// Folds [`vc_step`] over the lines from index `i` on.
pub open spec fn spec_parse_viewconf_from(
    lines: Seq<Seq<char>>,
    i: int,
    state: Section,
    acc: ConfigView,
) -> Result<ConfigView, ViewConfigErrorView>
    decreases lines.len() - i,
{
    if i < 0 || i >= lines.len() {
        Result::Ok(acc)
    } else {
        match vc_step(state, acc, lines[i], i) {
            Result::Ok((st, a)) => spec_parse_viewconf_from(lines, i + 1, st, a),
            Result::Err(e) => Result::Err(e),
        }
    }
}

/// The built-in configuration, as a view.
pub open spec fn default_config_view() -> ConfigView {
    ConfigView {
        colors: default_colors_view(),
        show_room: false,
        data_path: "/martini/sshuser/mu/mu.dat"@,
    }
}

/// The configuration denoted by a whole viewer-configuration file, starting
/// from the built-in defaults.
pub open spec fn spec_parse_viewconf(s: Seq<char>) -> Result<ConfigView, ViewConfigErrorView> {
    spec_parse_viewconf_from(spec_lines(s), 0, Section::Top, default_config_view())
}

/// Applies [`vc_step`] to one line.
fn vc_step_exec(state: Section, acc: Config, line: &str, ln: usize) -> (r: Result<
    (Section, Config),
    ViewConfigError,
>)
    ensures
        match r {
            Result::Ok((st, a)) => vc_step(state, acc@, line@, ln as int) == Result::Ok::<
                (Section, ConfigView),
                ViewConfigErrorView,
            >((st, a@)),
            Result::Err(e) => vc_step(state, acc@, line@, ln as int) == Result::Err::<
                (Section, ConfigView),
                ViewConfigErrorView,
            >(e@),
        },
{
    let ghost accv = acc@;
    if matches!(state, Section::Gradient) {
        let len = line.unicode_len();
        let bi = find_char_from(line, 0, ']');
        proof {
            assert(line@.skip(0) =~= line@);
        }
        if bi < len {
            return Result::Ok((Section::Colors, acc));
        }
        let entry = trim_of(line);
        if !is_color_value(entry) {
            return Result::Err(ViewConfigError::BadColor(ln, entry.to_owned()));
        }
        let mut acc = acc;
        acc.colors.hotness_gradient.push(entry.to_owned());
        proof {
            assert(acc@.colors.hotness_gradient =~= accv.colors.hotness_gradient.push(
                spec_trim(line@),
            ));
            assert(acc@ =~= (ConfigView {
                colors: ColorsView {
                    hotness_gradient: accv.colors.hotness_gradient.push(spec_trim(line@)),
                    ..accv.colors
                },
                ..accv
            }));
        }
        return Result::Ok((Section::Gradient, acc));
    }
    let l = match strip_comments(line) {
        Option::None => {
            return Result::Ok((state, acc));
        },
        Option::Some(l) => l,
    };
    let llen = l.unicode_len();
    if l.get_char(0) == '[' {
        if llen >= 2 && l.get_char(llen - 1) == ']' {
            let h = trim_of(l.substring_char(1, llen - 1));
            if str_eq(h, "general") {
                return Result::Ok((Section::General, acc));
            }
            if str_eq(h, "colors") {
                return Result::Ok((Section::Colors, acc));
            }
            return Result::Err(ViewConfigError::UnknownHeader(ln, h.to_owned()));
        }
        return Result::Err(ViewConfigError::OrphanLine(ln, l.to_owned()));
    }
    if matches!(state, Section::Top) {
        return Result::Err(ViewConfigError::OrphanLine(ln, l.to_owned()));
    }
    let di = find_space(l);
    if di == llen {
        return Result::Err(ViewConfigError::BadDeclaration(ln, l.to_owned()));
    }
    let kw = l.substring_char(0, di);
    let value = trim_of(l.substring_char(di + 1, llen));
    if matches!(state, Section::General) {
        if str_eq(kw, "show_room") {
            if str_eq(value, "true") {
                let mut acc = acc;
                acc.show_room = true;
                proof {
                    assert(acc@ =~= (ConfigView { show_room: true, ..accv }));
                }
                return Result::Ok((Section::General, acc));
            }
            if str_eq(value, "false") {
                let mut acc = acc;
                acc.show_room = false;
                proof {
                    assert(acc@ =~= (ConfigView { show_room: false, ..accv }));
                }
                return Result::Ok((Section::General, acc));
            }
            return Result::Err(ViewConfigError::BadBool(ln, value.to_owned()));
        }
        if str_eq(kw, "data_path") {
            let mut acc = acc;
            acc.data_path = String::from_str(value);
            proof {
                assert(acc@ =~= (ConfigView { data_path: value@, ..accv }));
            }
            return Result::Ok((Section::General, acc));
        }
        return Result::Err(ViewConfigError::UnknownKeyword(ln, kw.to_owned()));
    }
    vc_colors_exec(acc, kw, value, ln)
}

/// Applies the colors-section declarations.
fn vc_colors_exec(acc: Config, kw: &str, value: &str, ln: usize) -> (r: Result<
    (Section, Config),
    ViewConfigError,
>)
    ensures
        match r {
            Result::Ok((st, a)) => vc_colors_kw(acc@, kw@, value@, ln as int) == Result::Ok::<
                (Section, ConfigView),
                ViewConfigErrorView,
            >((st, a@)),
            Result::Err(e) => vc_colors_kw(acc@, kw@, value@, ln as int) == Result::Err::<
                (Section, ConfigView),
                ViewConfigErrorView,
            >(e@),
        },
{
    let ghost accv = acc@;
    if str_eq(kw, "hotness_gradient") {
        if value.unicode_len() >= 1 && value.get_char(0) == '[' {
            let mut acc = acc;
            acc.colors.hotness_gradient = Vec::new();
            proof {
                assert(acc@.colors.hotness_gradient =~= Seq::<Seq<char>>::empty());
                assert(acc@ =~= (ConfigView {
                    colors: ColorsView { hotness_gradient: Seq::empty(), ..accv.colors },
                    ..accv
                }));
            }
            return Result::Ok((Section::Gradient, acc));
        }
        return Result::Err(ViewConfigError::ExpectedList(ln, value.to_owned()));
    }
    if str_eq(kw, "divider") {
        if !is_color_value(value) {
            return Result::Err(ViewConfigError::BadColor(ln, value.to_owned()));
        }
        let mut acc = acc;
        acc.colors.divider = String::from_str(value);
        proof {
            assert(acc@ =~= (ConfigView {
                colors: ColorsView { divider: value@, ..accv.colors },
                ..accv
            }));
        }
        return Result::Ok((Section::Colors, acc));
    }
    if str_eq(kw, "user") {
        if !is_color_value(value) {
            return Result::Err(ViewConfigError::BadColor(ln, value.to_owned()));
        }
        let mut acc = acc;
        acc.colors.user = String::from_str(value);
        proof {
            assert(acc@ =~= (ConfigView {
                colors: ColorsView { user: value@, ..accv.colors },
                ..accv
            }));
        }
        return Result::Ok((Section::Colors, acc));
    }
    if str_eq(kw, "hostname") {
        if !is_color_value(value) {
            return Result::Err(ViewConfigError::BadColor(ln, value.to_owned()));
        }
        let mut acc = acc;
        acc.colors.hostname = String::from_str(value);
        proof {
            assert(acc@ =~= (ConfigView {
                colors: ColorsView { hostname: value@, ..accv.colors },
                ..accv
            }));
        }
        return Result::Ok((Section::Colors, acc));
    }
    if str_eq(kw, "os") {
        if !is_color_value(value) {
            return Result::Err(ViewConfigError::BadColor(ln, value.to_owned()));
        }
        let mut acc = acc;
        acc.colors.os = String::from_str(value);
        proof {
            assert(acc@ =~= (ConfigView {
                colors: ColorsView { os: value@, ..accv.colors },
                ..accv
            }));
        }
        return Result::Ok((Section::Colors, acc));
    }
    if str_eq(kw, "clock") {
        if !is_color_value(value) {
            return Result::Err(ViewConfigError::BadColor(ln, value.to_owned()));
        }
        let mut acc = acc;
        acc.colors.clock = String::from_str(value);
        proof {
            assert(acc@ =~= (ConfigView {
                colors: ColorsView { clock: value@, ..accv.colors },
                ..accv
            }));
        }
        return Result::Ok((Section::Colors, acc));
    }
    if str_eq(kw, "gauge") {
        if !is_color_value(value) {
            return Result::Err(ViewConfigError::BadColor(ln, value.to_owned()));
        }
        let mut acc = acc;
        acc.colors.gauge = String::from_str(value);
        proof {
            assert(acc@ =~= (ConfigView {
                colors: ColorsView { gauge: value@, ..accv.colors },
                ..accv
            }));
        }
        return Result::Ok((Section::Colors, acc));
    }
    if str_eq(kw, "student") {
        if !is_color_value(value) {
            return Result::Err(ViewConfigError::BadColor(ln, value.to_owned()));
        }
        let mut acc = acc;
        acc.colors.student = String::from_str(value);
        proof {
            assert(acc@ =~= (ConfigView {
                colors: ColorsView { student: value@, ..accv.colors },
                ..accv
            }));
        }
        return Result::Ok((Section::Colors, acc));
    }
    if str_eq(kw, "visitor") {
        if !is_color_value(value) {
            return Result::Err(ViewConfigError::BadColor(ln, value.to_owned()));
        }
        let mut acc = acc;
        acc.colors.visitor = String::from_str(value);
        proof {
            assert(acc@ =~= (ConfigView {
                colors: ColorsView { visitor: value@, ..accv.colors },
                ..accv
            }));
        }
        return Result::Ok((Section::Colors, acc));
    }
    if str_eq(kw, "reservation") {
        if !is_color_value(value) {
            return Result::Err(ViewConfigError::BadColor(ln, value.to_owned()));
        }
        let mut acc = acc;
        acc.colors.reservation = String::from_str(value);
        proof {
            assert(acc@ =~= (ConfigView {
                colors: ColorsView { reservation: value@, ..accv.colors },
                ..accv
            }));
        }
        return Result::Ok((Section::Colors, acc));
    }
    if str_eq(kw, "owner") {
        if !is_color_value(value) {
            return Result::Err(ViewConfigError::BadColor(ln, value.to_owned()));
        }
        let mut acc = acc;
        acc.colors.owner = String::from_str(value);
        proof {
            assert(acc@ =~= (ConfigView {
                colors: ColorsView { owner: value@, ..accv.colors },
                ..accv
            }));
        }
        return Result::Ok((Section::Colors, acc));
    }
    if str_eq(kw, "room") {
        if !is_color_value(value) {
            return Result::Err(ViewConfigError::BadColor(ln, value.to_owned()));
        }
        let mut acc = acc;
        acc.colors.room = String::from_str(value);
        proof {
            assert(acc@ =~= (ConfigView {
                colors: ColorsView { room: value@, ..accv.colors },
                ..accv
            }));
        }
        return Result::Ok((Section::Colors, acc));
    }
    if str_eq(kw, "cores_active") {
        if !is_color_value(value) {
            return Result::Err(ViewConfigError::BadColor(ln, value.to_owned()));
        }
        let mut acc = acc;
        acc.colors.cores_active = String::from_str(value);
        proof {
            assert(acc@ =~= (ConfigView {
                colors: ColorsView { cores_active: value@, ..accv.colors },
                ..accv
            }));
        }
        return Result::Ok((Section::Colors, acc));
    }
    if str_eq(kw, "cores_divider") {
        if !is_color_value(value) {
            return Result::Err(ViewConfigError::BadColor(ln, value.to_owned()));
        }
        let mut acc = acc;
        acc.colors.cores_divider = String::from_str(value);
        proof {
            assert(acc@ =~= (ConfigView {
                colors: ColorsView { cores_divider: value@, ..accv.colors },
                ..accv
            }));
        }
        return Result::Ok((Section::Colors, acc));
    }
    if str_eq(kw, "cores_total") {
        if !is_color_value(value) {
            return Result::Err(ViewConfigError::BadColor(ln, value.to_owned()));
        }
        let mut acc = acc;
        acc.colors.cores_total = String::from_str(value);
        proof {
            assert(acc@ =~= (ConfigView {
                colors: ColorsView { cores_total: value@, ..accv.colors },
                ..accv
            }));
        }
        return Result::Ok((Section::Colors, acc));
    }
    if str_eq(kw, "cores_bg") {
        if !is_color_value(value) {
            return Result::Err(ViewConfigError::BadColor(ln, value.to_owned()));
        }
        let mut acc = acc;
        acc.colors.cores_bg = String::from_str(value);
        proof {
            assert(acc@ =~= (ConfigView {
                colors: ColorsView { cores_bg: value@, ..accv.colors },
                ..accv
            }));
        }
        return Result::Ok((Section::Colors, acc));
    }
    if str_eq(kw, "active_user") {
        if !is_color_value(value) {
            return Result::Err(ViewConfigError::BadColor(ln, value.to_owned()));
        }
        let mut acc = acc;
        acc.colors.active_user = String::from_str(value);
        proof {
            assert(acc@ =~= (ConfigView {
                colors: ColorsView { active_user: value@, ..accv.colors },
                ..accv
            }));
        }
        return Result::Ok((Section::Colors, acc));
    }
    if str_eq(kw, "active_task") {
        if !is_color_value(value) {
            return Result::Err(ViewConfigError::BadColor(ln, value.to_owned()));
        }
        let mut acc = acc;
        acc.colors.active_task = String::from_str(value);
        proof {
            assert(acc@ =~= (ConfigView {
                colors: ColorsView { active_task: value@, ..accv.colors },
                ..accv
            }));
        }
        return Result::Ok((Section::Colors, acc));
    }
    if str_eq(kw, "active_cores") {
        if !is_color_value(value) {
            return Result::Err(ViewConfigError::BadColor(ln, value.to_owned()));
        }
        let mut acc = acc;
        acc.colors.active_cores = String::from_str(value);
        proof {
            assert(acc@ =~= (ConfigView {
                colors: ColorsView { active_cores: value@, ..accv.colors },
                ..accv
            }));
        }
        return Result::Ok((Section::Colors, acc));
    }
    if str_eq(kw, "stats") {
        if !is_color_value(value) {
            return Result::Err(ViewConfigError::BadColor(ln, value.to_owned()));
        }
        let mut acc = acc;
        acc.colors.stats = String::from_str(value);
        proof {
            assert(acc@ =~= (ConfigView {
                colors: ColorsView { stats: value@, ..accv.colors },
                ..accv
            }));
        }
        return Result::Ok((Section::Colors, acc));
    }
    if str_eq(kw, "notes") {
        if !is_color_value(value) {
            return Result::Err(ViewConfigError::BadColor(ln, value.to_owned()));
        }
        let mut acc = acc;
        acc.colors.notes = String::from_str(value);
        proof {
            assert(acc@ =~= (ConfigView {
                colors: ColorsView { notes: value@, ..accv.colors },
                ..accv
            }));
        }
        return Result::Ok((Section::Colors, acc));
    }
    Result::Err(ViewConfigError::UnknownColorKeyword(ln, kw.to_owned()))
}

/// The colors-section outcome in terms of the already-split keyword and
/// value: a known colour keyword takes the value only if it names a colour.
pub open spec fn vc_colors_kw(acc: ConfigView, kw: Seq<char>, value: Seq<char>, ln: int) -> Result<
    (Section, ConfigView),
    ViewConfigErrorView,
> {
    if kw == "hotness_gradient"@ {
        if value.len() >= 1 && value[0] == '[' {
            Result::Ok(
                (
                    Section::Gradient,
                    ConfigView {
                        colors: ColorsView { hotness_gradient: Seq::empty(), ..acc.colors },
                        ..acc
                    },
                ),
            )
        } else {
            Result::Err(ViewConfigErrorView::ExpectedList(ln, value))
        }
    } else if kw == "divider"@ {
        if color_ok(value) {
            Result::Ok((Section::Colors, ConfigView { colors: ColorsView { divider: value, ..acc.colors }, ..acc }))
        } else {
            Result::Err(ViewConfigErrorView::BadColor(ln, value))
        }
    } else if kw == "user"@ {
        if color_ok(value) {
            Result::Ok((Section::Colors, ConfigView { colors: ColorsView { user: value, ..acc.colors }, ..acc }))
        } else {
            Result::Err(ViewConfigErrorView::BadColor(ln, value))
        }
    } else if kw == "hostname"@ {
        if color_ok(value) {
            Result::Ok((Section::Colors, ConfigView { colors: ColorsView { hostname: value, ..acc.colors }, ..acc }))
        } else {
            Result::Err(ViewConfigErrorView::BadColor(ln, value))
        }
    } else if kw == "os"@ {
        if color_ok(value) {
            Result::Ok((Section::Colors, ConfigView { colors: ColorsView { os: value, ..acc.colors }, ..acc }))
        } else {
            Result::Err(ViewConfigErrorView::BadColor(ln, value))
        }
    } else if kw == "clock"@ {
        if color_ok(value) {
            Result::Ok((Section::Colors, ConfigView { colors: ColorsView { clock: value, ..acc.colors }, ..acc }))
        } else {
            Result::Err(ViewConfigErrorView::BadColor(ln, value))
        }
    } else if kw == "gauge"@ {
        if color_ok(value) {
            Result::Ok((Section::Colors, ConfigView { colors: ColorsView { gauge: value, ..acc.colors }, ..acc }))
        } else {
            Result::Err(ViewConfigErrorView::BadColor(ln, value))
        }
    } else if kw == "student"@ {
        if color_ok(value) {
            Result::Ok((Section::Colors, ConfigView { colors: ColorsView { student: value, ..acc.colors }, ..acc }))
        } else {
            Result::Err(ViewConfigErrorView::BadColor(ln, value))
        }
    } else if kw == "visitor"@ {
        if color_ok(value) {
            Result::Ok((Section::Colors, ConfigView { colors: ColorsView { visitor: value, ..acc.colors }, ..acc }))
        } else {
            Result::Err(ViewConfigErrorView::BadColor(ln, value))
        }
    } else if kw == "reservation"@ {
        if color_ok(value) {
            Result::Ok((Section::Colors, ConfigView { colors: ColorsView { reservation: value, ..acc.colors }, ..acc }))
        } else {
            Result::Err(ViewConfigErrorView::BadColor(ln, value))
        }
    } else if kw == "owner"@ {
        if color_ok(value) {
            Result::Ok((Section::Colors, ConfigView { colors: ColorsView { owner: value, ..acc.colors }, ..acc }))
        } else {
            Result::Err(ViewConfigErrorView::BadColor(ln, value))
        }
    } else if kw == "room"@ {
        if color_ok(value) {
            Result::Ok((Section::Colors, ConfigView { colors: ColorsView { room: value, ..acc.colors }, ..acc }))
        } else {
            Result::Err(ViewConfigErrorView::BadColor(ln, value))
        }
    } else if kw == "cores_active"@ {
        if color_ok(value) {
            Result::Ok((Section::Colors, ConfigView { colors: ColorsView { cores_active: value, ..acc.colors }, ..acc }))
        } else {
            Result::Err(ViewConfigErrorView::BadColor(ln, value))
        }
    } else if kw == "cores_divider"@ {
        if color_ok(value) {
            Result::Ok((Section::Colors, ConfigView { colors: ColorsView { cores_divider: value, ..acc.colors }, ..acc }))
        } else {
            Result::Err(ViewConfigErrorView::BadColor(ln, value))
        }
    } else if kw == "cores_total"@ {
        if color_ok(value) {
            Result::Ok((Section::Colors, ConfigView { colors: ColorsView { cores_total: value, ..acc.colors }, ..acc }))
        } else {
            Result::Err(ViewConfigErrorView::BadColor(ln, value))
        }
    } else if kw == "cores_bg"@ {
        if color_ok(value) {
            Result::Ok((Section::Colors, ConfigView { colors: ColorsView { cores_bg: value, ..acc.colors }, ..acc }))
        } else {
            Result::Err(ViewConfigErrorView::BadColor(ln, value))
        }
    } else if kw == "active_user"@ {
        if color_ok(value) {
            Result::Ok((Section::Colors, ConfigView { colors: ColorsView { active_user: value, ..acc.colors }, ..acc }))
        } else {
            Result::Err(ViewConfigErrorView::BadColor(ln, value))
        }
    } else if kw == "active_task"@ {
        if color_ok(value) {
            Result::Ok((Section::Colors, ConfigView { colors: ColorsView { active_task: value, ..acc.colors }, ..acc }))
        } else {
            Result::Err(ViewConfigErrorView::BadColor(ln, value))
        }
    } else if kw == "active_cores"@ {
        if color_ok(value) {
            Result::Ok((Section::Colors, ConfigView { colors: ColorsView { active_cores: value, ..acc.colors }, ..acc }))
        } else {
            Result::Err(ViewConfigErrorView::BadColor(ln, value))
        }
    } else if kw == "stats"@ {
        if color_ok(value) {
            Result::Ok((Section::Colors, ConfigView { colors: ColorsView { stats: value, ..acc.colors }, ..acc }))
        } else {
            Result::Err(ViewConfigErrorView::BadColor(ln, value))
        }
    } else if kw == "notes"@ {
        if color_ok(value) {
            Result::Ok((Section::Colors, ConfigView { colors: ColorsView { notes: value, ..acc.colors }, ..acc }))
        } else {
            Result::Err(ViewConfigErrorView::BadColor(ln, value))
        }
    } else {
        Result::Err(ViewConfigErrorView::UnknownColorKeyword(ln, kw))
    }
}

impl Config {
    /// Parses the text of a viewer-configuration file, starting from the
    /// built-in defaults. Returns the first malformed line as an error.
    pub fn from_config_str(s: &str) -> (r: Result<Config, ViewConfigError>)
        ensures
            match r {
                Result::Ok(cfg) => spec_parse_viewconf(s@) == Result::Ok::<
                    ConfigView,
                    ViewConfigErrorView,
                >(cfg@),
                Result::Err(e) => spec_parse_viewconf(s@) == Result::Err::<
                    ConfigView,
                    ViewConfigErrorView,
                >(e@),
            },
    {
        let lines = split_lines(s);
        let ghost linesv = lines@.map_values(|l: String| l@);
        let mut acc = Config::default();
        let mut state = Section::Top;
        let mut i: usize = 0;
        while i < lines.len()
            invariant
                0 <= i <= lines.len(),
                linesv == lines@.map_values(|l: String| l@),
                spec_parse_viewconf(s@) == spec_parse_viewconf_from(
                    linesv,
                    i as int,
                    state,
                    acc@,
                ),
            decreases lines.len() - i,
        {
            match vc_step_exec(state, acc, lines[i].as_str(), i) {
                Result::Ok((st, a)) => {
                    state = st;
                    acc = a;
                },
                Result::Err(e) => {
                    return Result::Err(e);
                },
            }
            i = i + 1;
        }
        Result::Ok(acc)
    }
}

// ---------------------------------------------------------------------------
// Gradient selection
// ---------------------------------------------------------------------------

/// The gradient index for a load ratio `five_centi / (100 * cores)` over a
/// gradient of `n` colours: `round(ratio * (n - 1))`, clamped to the
/// gradient range; a machine without cores counts as ratio zero.
///
/// `round((n-1) * f / (100 c))` is computed as
/// `floor((2 (n-1) f + 100 c) / (200 c))`.
pub open spec fn spec_gradient_idx(five_centi: int, cores: int, n: int) -> int {
    if n <= 1 || cores <= 0 {
        0
    } else {
        let i = (2 * (n - 1) * five_centi + 100 * cores) / (200 * cores);
        if i > n - 1 {
            n - 1
        } else {
            i
        }
    }
}

/// On the ten-step gradient, the index is exactly the hotness bucket: both
/// viewers colour a machine the same way.
pub proof fn lemma_gradient_idx_matches_hotness(five_centi: int, cores: int)
    ensures
        spec_gradient_idx(five_centi, cores, 10) == crate::view::spec_hotness_bucket(
            five_centi,
            cores,
        ),
{
}

impl Colors {
    /// Picks the gradient colour for a machine's load ratio; absent only
    /// when the gradient is empty.
    pub fn pick_gradient_color(&self, load_five_centi: u64, cores: u32) -> (r: Option<String>)
        ensures
            (r is Some) <==> self@.hotness_gradient.len() > 0,
            r matches Option::Some(g) ==> g@ == self@.hotness_gradient[spec_gradient_idx(
                load_five_centi as int,
                cores as int,
                self@.hotness_gradient.len() as int,
            )],
    {
        let ghost n_g = self@.hotness_gradient.len() as int;
        let n = self.hotness_gradient.len();
        if n == 0 {
            return Option::None;
        }
        if n == 1 || cores == 0 {
            return Option::Some(self.hotness_gradient[0].clone());
        }
        if load_five_centi >= 100 * (cores as u64) {
            // the ratio is at least one: the hottest colour
            proof {
                let f: int = load_five_centi as int;
                let c: int = cores as int;
                let num: int = 2 * (n_g - 1) * f + 100 * c;
                assert(num >= 200 * c * (n_g - 1)) by (nonlinear_arith)
                    requires
                        f >= 100 * c,
                        c >= 1,
                        n_g >= 2,
                        num == 2 * (n_g - 1) * f + 100 * c,
                ;
                lemma_div_multiples_vanish(n_g - 1, 200 * c);
                lemma_div_is_ordered(200 * c * (n_g - 1), num, 200 * c);
                assert((200 * c) * (n_g - 1) == 200 * c * (n_g - 1)) by (nonlinear_arith);
                assert(num / (200 * c) >= n_g - 1);
            }
            return Option::Some(self.hotness_gradient[n - 1].clone());
        }
        // the ratio is below one, so the numerator stays far from 128 bits
        proof {
            let f: int = load_five_centi as int;
            let c: int = cores as int;
            assert(2 * (n_g - 1) * f + 100 * c
                < 340282366920938463463374607431768211456int) by (nonlinear_arith)
                requires
                    0 <= f,
                    f < 100 * c,
                    1 <= c,
                    c < 4294967296int,
                    2 <= n_g,
                    n_g < 18446744073709551616int,
            ;
        }
        let num: u128 = 2 * ((n - 1) as u128) * (load_five_centi as u128) + 100 * (cores as u128);
        let den: u128 = 200 * (cores as u128);
        let i = num / den;
        let idx: usize = if i > (n - 1) as u128 {
            n - 1
        } else {
            i as usize
        };
        proof {
            assert(idx == spec_gradient_idx(load_five_centi as int, cores as int, n_g));
        }
        Option::Some(self.hotness_gradient[idx].clone())
    }
}

} // verus!
