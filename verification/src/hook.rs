use vstd::prelude::*;
use crate::mode::Mode;
use crate::mods::{codes_bits, parse_codes, Mods};
use crate::text::{chars_of, decimal, digit, is_digit, parse_decimal};

verus! {

/// What a short link names: a beatmap, and where the link says so a mode and
/// modifiers.
#[derive(Clone, Copy, Debug, PartialEq, Eq, Structural)]
pub struct ShortLink {
    pub id: u64,
    pub mode: Option<Mode>,
    pub mods: Option<Mods>,
}

/// Whether `c` is an ASCII letter, an ASCII digit or `_`.
pub open spec fn is_word_char(c: char) -> bool {
    let n = c as u32;
    0x30 <= n <= 0x39 || 0x41 <= n <= 0x5a || 0x61 <= n <= 0x7a || n == 0x5f
}

/// Whether `c` is an ASCII capital letter.
pub open spec fn is_upper(c: char) -> bool {
    0x41 <= c as u32 <= 0x5a
}

/// How many ASCII digits stand in `t` from position `from` on, without a gap.
pub open spec fn digits_len(t: Seq<char>, from: int) -> nat
    decreases t.len() - from,
{
    if 0 <= from < t.len() && is_digit(t[from]) {
        1 + digits_len(t, from + 1)
    } else {
        0
    }
}

/// How many ASCII capital letters stand in `t` from position `from` on,
/// without a gap.
pub open spec fn upper_len(t: Seq<char>, from: int) -> nat
    decreases t.len() - from,
{
    if 0 <= from < t.len() && is_upper(t[from]) {
        1 + upper_len(t, from + 1)
    } else {
        0
    }
}

/// Whether `word` stands in `t` at position `p`.
pub open spec fn has_at(t: Seq<char>, p: int, word: Seq<char>) -> bool {
    0 <= p && p + word.len() <= t.len() && t.subrange(p, p + word.len()) == word
}

/// The mode that a link names at position `p`, after its number, and where
/// the rest of the link goes on: a `/` and a site tag, or nothing.
pub open spec fn mode_at(t: Seq<char>, p: int) -> (Option<Mode>, int) {
    if 0 <= p < t.len() && t[p] == '/' {
        if has_at(t, p + 1, Mode::Std.site_tag()) {
            (Some(Mode::Std), p + 1 + Mode::Std.site_tag().len())
        } else if has_at(t, p + 1, Mode::Taiko.site_tag()) {
            (Some(Mode::Taiko), p + 1 + Mode::Taiko.site_tag().len())
        } else if has_at(t, p + 1, Mode::Catch.site_tag()) {
            (Some(Mode::Catch), p + 1 + Mode::Catch.site_tag().len())
        } else if has_at(t, p + 1, Mode::Mania.site_tag()) {
            (Some(Mode::Mania), p + 1 + Mode::Mania.site_tag().len())
        } else {
            (None, p)
        }
    } else {
        (None, p)
    }
}

/// The modifiers that a link names at position `p`, after its number and
/// mode: a `+` and capital letters that spell modifier codes. Letters that
/// spell none name no modifiers.
pub open spec fn mods_at(t: Seq<char>, p: int) -> Option<Mods> {
    if 0 <= p < t.len() && t[p] == '+' && upper_len(t, p + 1) > 0 {
        match codes_bits(t.subrange(p + 1, p + 1 + upper_len(t, p + 1))) {
            Some(bits) => Some(Mods { bits }),
            None => None,
        }
    } else {
        None
    }
}

/// The short link that begins at position `p` of `t`, if one does: `/b/` at
/// the start of the text or after a character that is no word character,
/// then the beatmap's number with all its digits, then the mode and the
/// modifiers where they follow.
pub open spec fn link_at(t: Seq<char>, p: int) -> Option<ShortLink> {
    if 0 <= p && (p == 0 || (p <= t.len() && !is_word_char(t[p - 1]))) && has_at(t, p, "/b/"@) {
        let id_from = p + "/b/"@.len();
        let id_to = id_from + digits_len(t, id_from);
        match decimal(t.subrange(id_from, id_to), u64::MAX as nat) {
            Some(id) => {
                let (mode, mode_to) = mode_at(t, id_to);
                Some(ShortLink { id: id as u64, mode, mods: mods_at(t, mode_to) })
            },
            None => None,
        }
    } else {
        None
    }
}

/// The short link that begins at the least position from `from` on at which
/// one begins.
pub open spec fn first_link_from(t: Seq<char>, from: int) -> Option<ShortLink>
    decreases t.len() - from,
{
    if from < 0 || from >= t.len() {
        None
    } else if link_at(t, from) is Some {
        link_at(t, from)
    } else {
        first_link_from(t, from + 1)
    }
}

/// The first short link of a text.
pub open spec fn first_link(t: Seq<char>) -> Option<ShortLink> {
    first_link_from(t, 0)
}

/// `first_link_from` is the link at the least position that has one: no link
/// at all where no position has one.
pub proof fn lemma_first_link_is_leftmost(t: Seq<char>, from: int)
    requires
        0 <= from,
    ensures
        first_link_from(t, from) is None <==> forall|p: int|
            from <= p < t.len() ==> link_at(t, p) is None,
        first_link_from(t, from) is Some ==> exists|p: int|
            from <= p < t.len() && link_at(t, p) == first_link_from(t, from) && forall|q: int|
                from <= q < p ==> link_at(t, q) is None,
    decreases t.len() - from,
{
    if from < t.len() {
        if link_at(t, from) is Some {
            assert(from <= from < t.len() && link_at(t, from) == first_link_from(t, from)
                && forall|q: int| from <= q < from ==> link_at(t, q) is None);
        } else {
            lemma_first_link_is_leftmost(t, from + 1);
            if first_link_from(t, from + 1) is Some {
                let p = choose|p: int|
                    from + 1 <= p < t.len() && link_at(t, p) == first_link_from(t, from + 1)
                        && forall|q: int| from + 1 <= q < p ==> link_at(t, q) is None;
                assert(from <= p < t.len() && link_at(t, p) == first_link_from(t, from)
                    && forall|q: int| from <= q < p ==> link_at(t, q) is None);
            } else {
                assert forall|p: int| from <= p < t.len() implies link_at(t, p) is None by {
                    if p > from {
                        assert(from + 1 <= p);
                    }
                }
            }
        }
    }
}

fn word_char(c: char) -> (r: bool)
    ensures
        r == is_word_char(c),
{
    let n = c as u32;
    (0x30 <= n && n <= 0x39) || (0x41 <= n && n <= 0x5a) || (0x61 <= n && n <= 0x7a) || n == 0x5f
}

fn upper(c: char) -> (r: bool)
    ensures
        r == is_upper(c),
{
    let n = c as u32;
    0x41 <= n && n <= 0x5a
}

/// Whether `word` stands in `v` at position `p`.
fn starts_at(v: &Vec<char>, p: usize, word: &str) -> (r: bool)
    requires
        p <= v.len(),
    ensures
        r == has_at(v@, p as int, word@),
{
    let w = chars_of(word);
    if w.len() > v.len() - p {
        return false;
    }
    let mut i: usize = 0;
    while i < w.len()
        invariant
            i <= w.len(),
            p + w.len() <= v.len(),
            w@ == word@,
            forall|j: int| 0 <= j < i ==> v@[p + j] == w@[j],
        decreases w.len() - i,
    {
        if v[p + i] != w[i] {
            assert(v@.subrange(p as int, p + w.len())[i as int] != w@[i as int]);
            return false;
        }
        i += 1;
    }
    assert(v@.subrange(p as int, p + w.len()) =~= w@);
    true
}

/// The end of the digits that stand in `v` from `from` on.
fn digits_end(v: &Vec<char>, from: usize) -> (end: usize)
    requires
        from <= v.len(),
    ensures
        end == from + digits_len(v@, from as int),
        end <= v.len(),
{
    let mut end: usize = from;
    while end < v.len() && digit(v[end]).is_some()
        invariant
            from <= end <= v.len(),
            from + digits_len(v@, from as int) == end + digits_len(v@, end as int),
        decreases v.len() - end,
    {
        end += 1;
    }
    end
}

/// The end of the capital letters that stand in `v` from `from` on.
fn upper_end(v: &Vec<char>, from: usize) -> (end: usize)
    requires
        from <= v.len(),
    ensures
        end == from + upper_len(v@, from as int),
        end <= v.len(),
{
    let mut end: usize = from;
    while end < v.len() && upper(v[end])
        invariant
            from <= end <= v.len(),
            from + upper_len(v@, from as int) == end + upper_len(v@, end as int),
        decreases v.len() - end,
    {
        end += 1;
    }
    end
}

fn read_mode(v: &Vec<char>, p: usize) -> (r: (Option<Mode>, usize))
    requires
        p <= v.len(),
    ensures
        (r.0, r.1 as int) == mode_at(v@, p as int),
        r.1 <= v.len(),
{
    proof {
        reveal_strlit("osu");
        reveal_strlit("taiko");
        reveal_strlit("fruits");
        reveal_strlit("mania");
    }
    if p < v.len() && v[p] == '/' {
        if starts_at(v, p + 1, Mode::Std.as_str_new_site()) {
            (Some(Mode::Std), p + 4)
        } else if starts_at(v, p + 1, Mode::Taiko.as_str_new_site()) {
            (Some(Mode::Taiko), p + 6)
        } else if starts_at(v, p + 1, Mode::Catch.as_str_new_site()) {
            (Some(Mode::Catch), p + 7)
        } else if starts_at(v, p + 1, Mode::Mania.as_str_new_site()) {
            (Some(Mode::Mania), p + 6)
        } else {
            (None, p)
        }
    } else {
        (None, p)
    }
}

fn read_mods(v: &Vec<char>, p: usize) -> (r: Option<Mods>)
    requires
        p <= v.len(),
    ensures
        r == mods_at(v@, p as int),
{
    if p < v.len() && v[p] == '+' {
        let end = upper_end(v, p + 1);
        if end > p + 1 {
            let mut token: Vec<char> = Vec::new();
            let mut i: usize = p + 1;
            while i < end
                invariant
                    p + 1 <= i <= end <= v.len(),
                    token@ == v@.subrange(p + 1, i as int),
                decreases end - i,
            {
                token.push(v[i]);
                assert(v@.subrange(p + 1, i + 1) =~= v@.subrange(p + 1, i as int).push(
                    v@[i as int],
                ));
                i += 1;
            }
            assert(token@.skip(0) =~= token@);
            parse_codes(&token, 0)
        } else {
            None
        }
    } else {
        None
    }
}

/// The short link that begins at position `p` of `v`, if one does.
fn read_link(v: &Vec<char>, p: usize) -> (r: Option<ShortLink>)
    requires
        p < v.len(),
    ensures
        r == link_at(v@, p as int),
{
    proof {
        reveal_strlit("/b/");
    }
    if (p == 0 || !word_char(v[p - 1])) && starts_at(v, p, "/b/") {
        let id_from = p + 3;
        let id_to = digits_end(v, id_from);
        match parse_decimal(v, id_from, id_to) {
            Some(id) => {
                let (mode, mode_to) = read_mode(v, id_to);
                Some(ShortLink { id, mode, mods: read_mods(v, mode_to) })
            },
            None => None,
        }
    } else {
        None
    }
}

/// Finds the first short link of `text`: the beatmap's number, and the mode
/// and the modifiers where the link names them.
pub fn find_short_link(text: &str) -> (link: Option<ShortLink>)
    ensures
        link == first_link(text@),
{
    let v = chars_of(text);
    let mut p: usize = 0;
    while p < v.len()
        invariant
            p <= v.len(),
            v@ == text@,
            first_link(text@) == first_link_from(v@, p as int),
        decreases v.len() - p,
    {
        let found = read_link(&v, p);
        if found.is_some() {
            return found;
        }
        p += 1;
    }
    None
}

} // verus!
