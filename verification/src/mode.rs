use vstd::prelude::*;
use crate::text::{chars_of, is_word};

verus! {

/// One of the four gameplay rule-sets.
#[derive(Clone, Copy, Debug, PartialEq, Eq, Hash, Structural)]
pub enum Mode {
    Std,
    Taiko,
    Catch,
    Mania,
}

/// The lower-case form that `str::to_lowercase` gives to a text.
pub uninterp spec fn lowercase_of(s: Seq<char>) -> Seq<char>;

/// `str::to_lowercase`: the result is the lower-case form of the argument,
/// a function of the argument's characters alone.
#[verifier::external_body]
fn lowercase(s: &str) -> (r: String)
    ensures
        r@ == lowercase_of(s@),
{
    s.to_lowercase()
}

/// The mode that a command names, by its lower-case name.
pub open spec fn keyword_mode(word: Seq<char>) -> Option<Mode> {
    if word == "osu"@ || word == "std"@ {
        Some(Mode::Std)
    } else if word == "taiko"@ || word == "osu!taiko"@ {
        Some(Mode::Taiko)
    } else if word == "ctb"@ || word == "fruits"@ || word == "catch"@ || word == "osu!ctb"@
        || word == "osu!catch"@ {
        Some(Mode::Catch)
    } else if word == "osu!mania"@ || word == "mania"@ {
        Some(Mode::Mania)
    } else {
        None
    }
}

impl Mode {
    /// The position of the mode in the fixed order Std, Taiko, Catch, Mania.
    pub open spec fn index(self) -> nat {
        match self {
            Mode::Std => 0,
            Mode::Taiko => 1,
            Mode::Catch => 2,
            Mode::Mania => 3,
        }
    }

    /// The tag under which the game's site lists the mode.
    pub open spec fn site_tag(self) -> Seq<char> {
        match self {
            Mode::Std => "osu"@,
            Mode::Taiko => "taiko"@,
            Mode::Catch => "fruits"@,
            Mode::Mania => "mania"@,
        }
    }

    /// The mode that a site tag names, if it names one.
    pub open spec fn of_site_tag(tag: Seq<char>) -> Option<Mode> {
        if tag == "osu"@ {
            Some(Mode::Std)
        } else if tag == "taiko"@ {
            Some(Mode::Taiko)
        } else if tag == "fruits"@ {
            Some(Mode::Catch)
        } else if tag == "mania"@ {
            Some(Mode::Mania)
        } else {
            None
        }
    }

    pub fn as_str_new_site(self) -> (tag: &'static str)
        ensures
            tag@ == self.site_tag(),
    {
        match self {
            Mode::Std => "osu",
            Mode::Taiko => "taiko",
            Mode::Catch => "fruits",
            Mode::Mania => "mania",
        }
    }

    /// The mode that a lower-case name stands for.
    pub fn of_keyword(word: &str) -> (mode: Option<Mode>)
        ensures
            mode == keyword_mode(word@),
    {
        let v = chars_of(word);
        if is_word(&v, "osu") || is_word(&v, "std") {
            Some(Mode::Std)
        } else if is_word(&v, "taiko") || is_word(&v, "osu!taiko") {
            Some(Mode::Taiko)
        } else if is_word(&v, "ctb") || is_word(&v, "fruits") || is_word(&v, "catch") || is_word(
            &v,
            "osu!ctb",
        ) || is_word(&v, "osu!catch") {
            Some(Mode::Catch)
        } else if is_word(&v, "osu!mania") || is_word(&v, "mania") {
            Some(Mode::Mania)
        } else {
            None
        }
    }

    /// The mode that a name stands for, in whatever case it is written.
    pub fn parse_keyword(s: &str) -> (mode: Option<Mode>)
        ensures
            mode == keyword_mode(lowercase_of(s@)),
    {
        let lower = lowercase(s);
        Mode::of_keyword(lower.as_str())
    }

    pub fn parse_from_new_site(s: &str) -> (mode: Option<Mode>)
        ensures
            mode == Mode::of_site_tag(s@),
    {
        let v = chars_of(s);
        if is_word(&v, "osu") {
            Some(Mode::Std)
        } else if is_word(&v, "taiko") {
            Some(Mode::Taiko)
        } else if is_word(&v, "fruits") {
            Some(Mode::Catch)
        } else if is_word(&v, "mania") {
            Some(Mode::Mania)
        } else {
            None
        }
    }
}

} // verus!
