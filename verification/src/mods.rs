use std::str::FromStr;
use vstd::prelude::*;
use crate::text::chars_of;

verus! {

pub const NF: u64 = 1;

pub const EZ: u64 = 2;

pub const TD: u64 = 4;

pub const HD: u64 = 8;

pub const HR: u64 = 16;

pub const SD: u64 = 32;

pub const DT: u64 = 64;

pub const RX: u64 = 128;

pub const HT: u64 = 256;

/// Nightcore, which always comes with `DT`.
pub const NC: u64 = 512;

pub const FL: u64 = 1024;

pub const AT: u64 = 2048;

pub const SO: u64 = 4096;

pub const AP: u64 = 8192;

/// Perfect, which always comes with `SD`.
pub const PF: u64 = 16384;

/// A set of gameplay modifiers, one bit for each. Two sets are the same set
/// exactly when their bits are the same.
#[derive(Clone, Copy, Debug, PartialEq, Eq, Hash, Structural)]
pub struct Mods {
    pub bits: u64,
}

/// A token that names no modifier set.
#[derive(Clone, Copy, Debug, PartialEq, Eq, Structural)]
pub struct UnknownMods;

/// Whether `c` is the letter written `upper` in upper case and `lower` in
/// lower case.
pub open spec fn is_letter(c: char, upper: char, lower: char) -> bool {
    c == upper || c == lower
}

/// The bits that a two-letter modifier code stands for, in either case.
pub open spec fn code_bits(a: char, b: char) -> Option<u64> {
    if is_letter(a, 'N', 'n') && is_letter(b, 'F', 'f') {
        Some(NF)
    } else if is_letter(a, 'E', 'e') && is_letter(b, 'Z', 'z') {
        Some(EZ)
    } else if is_letter(a, 'T', 't') && is_letter(b, 'D', 'd') {
        Some(TD)
    } else if is_letter(a, 'H', 'h') && is_letter(b, 'D', 'd') {
        Some(HD)
    } else if is_letter(a, 'H', 'h') && is_letter(b, 'R', 'r') {
        Some(HR)
    } else if is_letter(a, 'S', 's') && is_letter(b, 'D', 'd') {
        Some(SD)
    } else if is_letter(a, 'D', 'd') && is_letter(b, 'T', 't') {
        Some(DT)
    } else if is_letter(a, 'R', 'r') && is_letter(b, 'X', 'x') {
        Some(RX)
    } else if is_letter(a, 'H', 'h') && is_letter(b, 'T', 't') {
        Some(HT)
    } else if is_letter(a, 'N', 'n') && is_letter(b, 'C', 'c') {
        Some(NC | DT)
    } else if is_letter(a, 'F', 'f') && is_letter(b, 'L', 'l') {
        Some(FL)
    } else if is_letter(a, 'A', 'a') && is_letter(b, 'T', 't') {
        Some(AT)
    } else if is_letter(a, 'S', 's') && is_letter(b, 'O', 'o') {
        Some(SO)
    } else if is_letter(a, 'A', 'a') && is_letter(b, 'P', 'p') {
        Some(AP)
    } else if is_letter(a, 'P', 'p') && is_letter(b, 'F', 'f') {
        Some(PF | SD)
    } else {
        None
    }
}

/// The union of the modifiers that a run of two-letter codes names: `None`
/// where a code is unknown or a letter is left over.
pub open spec fn codes_bits(s: Seq<char>) -> Option<u64>
    decreases s.len(),
{
    if s.len() == 0 {
        Some(0)
    } else if s.len() == 1 {
        None
    } else {
        match (code_bits(s[0], s[1]), codes_bits(s.skip(2))) {
            (Some(m), Some(rest)) => Some(m | rest),
            _ => None,
        }
    }
}

/// The modifier set that a token names: an optional `+`, then two-letter codes.
pub open spec fn mods_of_token(s: Seq<char>) -> Option<Mods> {
    let codes = if s.len() > 0 && s[0] == '+' {
        s.skip(1)
    } else {
        s
    };
    match codes_bits(codes) {
        Some(bits) => Some(Mods { bits }),
        None => None,
    }
}

fn letter(c: char, upper: char, lower: char) -> (r: bool)
    ensures
        r == is_letter(c, upper, lower),
{
    c == upper || c == lower
}

fn code(a: char, b: char) -> (r: Option<u64>)
    ensures
        r == code_bits(a, b),
{
    if letter(a, 'N', 'n') && letter(b, 'F', 'f') {
        Some(NF)
    } else if letter(a, 'E', 'e') && letter(b, 'Z', 'z') {
        Some(EZ)
    } else if letter(a, 'T', 't') && letter(b, 'D', 'd') {
        Some(TD)
    } else if letter(a, 'H', 'h') && letter(b, 'D', 'd') {
        Some(HD)
    } else if letter(a, 'H', 'h') && letter(b, 'R', 'r') {
        Some(HR)
    } else if letter(a, 'S', 's') && letter(b, 'D', 'd') {
        Some(SD)
    } else if letter(a, 'D', 'd') && letter(b, 'T', 't') {
        Some(DT)
    } else if letter(a, 'R', 'r') && letter(b, 'X', 'x') {
        Some(RX)
    } else if letter(a, 'H', 'h') && letter(b, 'T', 't') {
        Some(HT)
    } else if letter(a, 'N', 'n') && letter(b, 'C', 'c') {
        Some(NC | DT)
    } else if letter(a, 'F', 'f') && letter(b, 'L', 'l') {
        Some(FL)
    } else if letter(a, 'A', 'a') && letter(b, 'T', 't') {
        Some(AT)
    } else if letter(a, 'S', 's') && letter(b, 'O', 'o') {
        Some(SO)
    } else if letter(a, 'A', 'a') && letter(b, 'P', 'p') {
        Some(AP)
    } else if letter(a, 'P', 'p') && letter(b, 'F', 'f') {
        Some(PF | SD)
    } else {
        None
    }
}

/// What `codes_bits` gives for the whole text, from the union `acc` of the
/// codes before `from` and the value of the rest.
spec fn joined(acc: u64, rest: Option<u64>) -> Option<u64> {
    match rest {
        Some(r) => Some(acc | r),
        None => None,
    }
}

proof fn lemma_join_step(acc: u64, s: Seq<char>)
    requires
        s.len() >= 2,
    ensures
        code_bits(s[0], s[1]) is None ==> joined(acc, codes_bits(s)) is None,
        code_bits(s[0], s[1]) matches Some(m) ==> joined(acc, codes_bits(s)) == joined(
            acc | m,
            codes_bits(s.skip(2)),
        ),
{
    if let Some(m) = code_bits(s[0], s[1]) {
        if let Some(r) = codes_bits(s.skip(2)) {
            assert(acc | (m | r) == (acc | m) | r) by (bit_vector);
        }
    }
}

/// The modifiers named by the codes of `v` from position `from` on.
pub(crate) fn parse_codes(v: &Vec<char>, from: usize) -> (r: Option<Mods>)
    requires
        from <= v.len(),
    ensures
        (r == match codes_bits(v@.skip(from as int)) {
            Some(bits) => Some(Mods { bits }),
            None => None,
        }),
{
    let ghost whole = v@.skip(from as int);
    let mut acc: u64 = 0;
    let mut i: usize = from;
    proof {
        if let Some(r) = codes_bits(whole) {
            assert(0u64 | r == r) by (bit_vector);
        }
    }
    while v.len() - i >= 2
        invariant
            from <= i <= v.len(),
            whole == v@.skip(from as int),
            codes_bits(whole) == joined(acc, codes_bits(v@.skip(i as int))),
        decreases v.len() - i,
    {
        let ghost rest = v@.skip(i as int);
        proof {
            lemma_join_step(acc, rest);
            assert(rest.skip(2) =~= v@.skip(i + 2));
        }
        match code(v[i], v[i + 1]) {
            Some(m) => {
                acc = acc | m;
            },
            None => {
                return None;
            },
        }
        i += 2;
    }
    if i == v.len() {
        assert(acc | 0u64 == acc) by (bit_vector);
        Some(Mods { bits: acc })
    } else {
        None
    }
}

impl Mods {
    /// The canonical empty set.
    pub fn nomod() -> (m: Mods)
        ensures
            m.bits == 0,
    {
        Mods { bits: 0 }
    }

    /// Whether every modifier of `other` is in `self`.
    pub open spec fn has_all(self, other: Mods) -> bool {
        self.bits & other.bits == other.bits
    }

    pub fn contains(self, other: Mods) -> (r: bool)
        ensures
            r == self.has_all(other),
    {
        self.bits & other.bits == other.bits
    }

    /// Reads a modifier token such as `+HDDT` or `hr`.
    pub fn parse(s: &str) -> (r: Option<Mods>)
        ensures
            r == mods_of_token(s@),
    {
        let v = chars_of(s);
        if v.len() > 0 && v[0] == '+' {
            parse_codes(&v, 1)
        } else {
            assert(v@.skip(0) =~= v@);
            parse_codes(&v, 0)
        }
    }

    /// Every set contains the empty set and itself.
    pub proof fn lemma_contains_basics(self)
        ensures
            self.has_all(Mods { bits: 0 }),
            self.has_all(self),
    {
        let a = self.bits;
        assert(a & 0u64 == 0u64) by (bit_vector);
        assert(a & a == a) by (bit_vector);
    }

    /// Containment is transitive.
    pub proof fn lemma_contains_transitive(self, b: Mods, c: Mods)
        requires
            self.has_all(b),
            b.has_all(c),
        ensures
            self.has_all(c),
    {
        let x = self.bits;
        let y = b.bits;
        let z = c.bits;
        assert(x & y == y && y & z == z ==> x & z == z) by (bit_vector);
    }

    /// Two sets that contain each other are the same set.
    pub proof fn lemma_contains_antisymmetric(self, b: Mods)
        requires
            self.has_all(b),
            b.has_all(self),
        ensures
            self == b,
    {
        let x = self.bits;
        let y = b.bits;
        assert(x & y == y && y & x == x ==> x == y) by (bit_vector);
    }
}

impl FromStr for Mods {
    type Err = UnknownMods;

    fn from_str(s: &str) -> (r: Result<Mods, UnknownMods>)
        ensures
            (r == match mods_of_token(s@) {
                Some(mods) => Ok::<Mods, UnknownMods>(mods),
                None => Err(UnknownMods),
            }),
    {
        match Mods::parse(s) {
            Some(mods) => Ok(mods),
            None => Err(UnknownMods),
        }
    }
}

impl Default for Mods {
    fn default() -> (mods: Mods)
        ensures
            mods.bits == 0,
    {
        Mods { bits: 0 }
    }
}

} // verus!
