use std::str::FromStr;
use vstd::prelude::*;
use crate::mode::{keyword_mode, lowercase_of, Mode};
use crate::text::{
    chars_of, decimal, is_word, parse_decimal, parse_signed_decimal, signed_decimal,
};

verus! {

/// Why a command argument was not understood.
#[derive(Clone, Copy, Debug, PartialEq, Eq, Structural)]
pub enum ArgError {
    UnknownMode,
    NotAnOrder,
    BadNumber,
    NotBeatmapSet,
    UnknownStyle,
    Empty,
}

/// Which of a player's plays is asked for.
#[derive(Clone, Copy, Debug, PartialEq, Eq, Structural)]
pub enum Nth {
    All,
    Nth(u8),
}

/// What an order argument asks for: `--all`, `-a` and `##` ask for all plays,
/// `#` and a number up to 255 for that play.
pub open spec fn nth_of(s: Seq<char>) -> Result<Nth, ArgError> {
    if s == "--all"@ || s == "-a"@ || s == "##"@ {
        Ok(Nth::All)
    } else if s.len() == 0 || s[0] != '#' {
        Err(ArgError::NotAnOrder)
    } else {
        match signed_decimal(s.skip(1), 255) {
            Some(n) => Ok(Nth::Nth(n as u8)),
            None => Err(ArgError::BadNumber),
        }
    }
}

impl Nth {
    pub fn parse(s: &str) -> (r: Result<Nth, ArgError>)
        ensures
            r == nth_of(s@),
    {
        let v = chars_of(s);
        if is_word(&v, "--all") || is_word(&v, "-a") || is_word(&v, "##") {
            Ok(Nth::All)
        } else if v.len() == 0 || v[0] != '#' {
            Err(ArgError::NotAnOrder)
        } else {
            match parse_signed_decimal(&v, 1) {
                Some(n) => {
                    if n <= 255 {
                        Ok(Nth::Nth(n as u8))
                    } else {
                        Err(ArgError::BadNumber)
                    }
                },
                None => Err(ArgError::BadNumber),
            }
        }
    }
}

impl FromStr for Nth {
    type Err = ArgError;

    fn from_str(s: &str) -> (r: Result<Nth, ArgError>)
        ensures
            r == nth_of(s@),
    {
        Nth::parse(s)
    }
}

/// A mode given as a command argument.
#[derive(Clone, Copy, Debug, PartialEq, Eq, Structural)]
pub struct ModeArg(pub Mode);

impl ModeArg {
    /// Reads a mode's name in any case.
    pub fn parse(s: &str) -> (r: Result<ModeArg, ArgError>)
        ensures
            (r == match keyword_mode(lowercase_of(s@)) {
                Some(mode) => Ok::<ModeArg, ArgError>(ModeArg(mode)),
                None => Err(ArgError::UnknownMode),
            }),
    {
        match Mode::parse_keyword(s) {
            Some(mode) => Ok(ModeArg(mode)),
            None => Err(ArgError::UnknownMode),
        }
    }
}

impl FromStr for ModeArg {
    type Err = ArgError;

    fn from_str(s: &str) -> (r: Result<ModeArg, ArgError>)
        ensures
            (r == match keyword_mode(lowercase_of(s@)) {
                Some(mode) => Ok::<ModeArg, ArgError>(ModeArg(mode)),
                None => Err(ArgError::UnknownMode),
            }),
    {
        ModeArg::parse(s)
    }
}

/// The flag that asks for the whole beatmap set.
#[derive(Clone, Copy, Debug, PartialEq, Eq, Structural)]
pub struct OptBeatmapSet;

/// Whether `s` is one of the spellings of the beatmap-set flag.
pub open spec fn is_beatmapset_flag(s: Seq<char>) -> bool {
    s == "--set"@ || s == "-s"@ || s == "--beatmapset"@
}

impl OptBeatmapSet {
    pub fn parse(s: &str) -> (r: Result<OptBeatmapSet, ArgError>)
        ensures
            r is Ok == is_beatmapset_flag(s@),
            r is Err ==> r == Err::<OptBeatmapSet, ArgError>(ArgError::NotBeatmapSet),
    {
        let v = chars_of(s);
        if is_word(&v, "--set") || is_word(&v, "-s") || is_word(&v, "--beatmapset") {
            Ok(OptBeatmapSet)
        } else {
            Err(ArgError::NotBeatmapSet)
        }
    }
}

impl FromStr for OptBeatmapSet {
    type Err = ArgError;

    fn from_str(s: &str) -> (r: Result<OptBeatmapSet, ArgError>)
        ensures
            r is Ok == is_beatmapset_flag(s@),
            r is Err ==> r == Err::<OptBeatmapSet, ArgError>(ArgError::NotBeatmapSet),
    {
        OptBeatmapSet::parse(s)
    }
}

/// How a list of plays is shown.
#[derive(Clone, Copy, Debug, PartialEq, Eq, Structural)]
pub enum ScoreListStyle {
    Table,
    Grid,
}

/// The style that a flag names.
pub open spec fn style_of(s: Seq<char>) -> Result<ScoreListStyle, ArgError> {
    if s == "--table"@ || s == "-t"@ {
        Ok(ScoreListStyle::Table)
    } else if s == "--grid"@ || s == "-g"@ {
        Ok(ScoreListStyle::Grid)
    } else {
        Err(ArgError::UnknownStyle)
    }
}

impl ScoreListStyle {
    pub fn parse(s: &str) -> (r: Result<ScoreListStyle, ArgError>)
        ensures
            r == style_of(s@),
    {
        let v = chars_of(s);
        if is_word(&v, "--table") || is_word(&v, "-t") {
            Ok(ScoreListStyle::Table)
        } else if is_word(&v, "--grid") || is_word(&v, "-g") {
            Ok(ScoreListStyle::Grid)
        } else {
            Err(ArgError::UnknownStyle)
        }
    }
}

impl FromStr for ScoreListStyle {
    type Err = ArgError;

    fn from_str(s: &str) -> (r: Result<ScoreListStyle, ArgError>)
        ensures
            r == style_of(s@),
    {
        ScoreListStyle::parse(s)
    }
}

impl Default for ScoreListStyle {
    fn default() -> (style: ScoreListStyle)
        ensures
            style == ScoreListStyle::Table,
    {
        ScoreListStyle::Table
    }
}

/// A player named in a command: by a mention of a chat identity, or by a
/// free-text token.
#[derive(Debug, PartialEq, Eq)]
pub enum UsernameArg {
    Tagged(u64),
    Raw(String),
}

/// The identity that a mention names: `<@`, an optional `!`, the identity's
/// number, `>`.
pub open spec fn mention_of(s: Seq<char>) -> Option<u64> {
    if s.len() >= 4 && s[0] == '<' && s[1] == '@' && s.last() == '>' {
        let from: int = if s[2] == '!' {
            3
        } else {
            2
        };
        match decimal(s.subrange(from, s.len() - 1), u64::MAX as nat) {
            Some(n) => Some(n as u64),
            None => None,
        }
    } else {
        None
    }
}

impl UsernameArg {
    /// Whether `self` is what the token `s` names.
    pub open spec fn reads(self, s: Seq<char>) -> bool {
        match mention_of(s) {
            Some(id) => self == UsernameArg::Tagged(id),
            None => self matches UsernameArg::Raw(name) && name@ == s,
        }
    }

    pub fn parse(s: &str) -> (r: Result<UsernameArg, ArgError>)
        ensures
            s@.len() == 0 ==> r == Err::<UsernameArg, ArgError>(ArgError::Empty),
            s@.len() > 0 ==> r is Ok && r->Ok_0.reads(s@),
    {
        let v = chars_of(s);
        let n = v.len();
        if n == 0 {
            return Err(ArgError::Empty);
        }
        if n >= 4 && v[0] == '<' && v[1] == '@' && v[n - 1] == '>' {
            let from: usize = if v[2] == '!' {
                3
            } else {
                2
            };
            if let Some(id) = parse_decimal(&v, from, n - 1) {
                return Ok(UsernameArg::Tagged(id));
            }
        }
        Ok(UsernameArg::Raw(s.to_owned()))
    }
}

impl FromStr for UsernameArg {
    type Err = ArgError;

    fn from_str(s: &str) -> (r: Result<UsernameArg, ArgError>)
        ensures
            s@.len() == 0 ==> r == Err::<UsernameArg, ArgError>(ArgError::Empty),
            s@.len() > 0 ==> r is Ok && r->Ok_0.reads(s@),
    {
        UsernameArg::parse(s)
    }
}

} // verus!
