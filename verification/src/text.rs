use vstd::prelude::*;

verus! {

/// The characters of `s`, in order.
pub fn chars_of(s: &str) -> (v: Vec<char>)
    ensures
        v@ == s@,
{
    let mut v: Vec<char> = Vec::new();
    for c in it: s.chars()
        invariant
            v@ == it.seq().take(it.index() as int),
    {
        v.push(c);
    }
    v
}

/// Whether two character sequences are the same.
pub fn same_chars(a: &Vec<char>, b: &Vec<char>) -> (r: bool)
    ensures
        r == (a@ == b@),
{
    if a.len() != b.len() {
        return false;
    }
    let mut i: usize = 0;
    while i < a.len()
        invariant
            i <= a.len(),
            a.len() == b.len(),
            forall|j: int| 0 <= j < i ==> a@[j] == b@[j],
        decreases a.len() - i,
    {
        if a[i] != b[i] {
            return false;
        }
        i += 1;
    }
    assert(a@ =~= b@);
    true
}

/// Whether `s` spells exactly the word `word`.
pub fn is_word(s: &Vec<char>, word: &str) -> (r: bool)
    ensures
        r == (s@ == word@),
{
    let w = chars_of(word);
    same_chars(s, &w)
}

/// Whether `c` is one of the ten ASCII digits.
pub open spec fn is_digit(c: char) -> bool {
    0x30 <= c as u32 <= 0x39
}

/// The value of an ASCII digit.
pub open spec fn digit_value(c: char) -> nat {
    (c as u32 - 0x30) as nat
}

/// Whether every character of `s` is an ASCII digit.
pub open spec fn all_digits(s: Seq<char>) -> bool {
    forall|i: int| 0 <= i < s.len() ==> is_digit(#[trigger] s[i])
}

/// The number that a run of digits writes in base ten.
pub open spec fn number_of(s: Seq<char>) -> nat
    decreases s.len(),
{
    if s.len() == 0 {
        0
    } else {
        number_of(s.drop_last()) * 10 + digit_value(s.last())
    }
}

/// The number that `s` writes, where `s` is one digit or more and the number
/// is at most `max`.
pub open spec fn decimal(s: Seq<char>, max: nat) -> Option<nat> {
    if s.len() > 0 && all_digits(s) && number_of(s) <= max {
        Some(number_of(s))
    } else {
        None
    }
}

/// As `decimal`, after one optional `+`.
pub open spec fn signed_decimal(s: Seq<char>, max: nat) -> Option<nat> {
    if s.len() > 0 && s[0] == '+' {
        decimal(s.skip(1), max)
    } else {
        decimal(s, max)
    }
}

/// A number never shrinks when digits are written after it.
pub proof fn lemma_number_grows(s: Seq<char>, k: int)
    requires
        0 <= k <= s.len(),
    ensures
        number_of(s.take(k)) <= number_of(s),
    decreases s.len(),
{
    if k == s.len() {
        assert(s.take(k) =~= s);
    } else {
        lemma_number_grows(s.drop_last(), k);
        assert(s.drop_last().take(k) =~= s.take(k));
    }
}

pub fn digit(c: char) -> (r: Option<u8>)
    ensures
        r is Some == is_digit(c),
        r matches Some(d) ==> d == digit_value(c),
{
    let n = c as u32;
    if 0x30 <= n && n <= 0x39 {
        Some((n - 0x30) as u8)
    } else {
        None
    }
}

/// Reads the characters of `v` from `from` up to `to` as a number in base ten.
pub(crate) fn parse_decimal(v: &Vec<char>, from: usize, to: usize) -> (r: Option<u64>)
    requires
        from <= to <= v.len(),
    ensures
        r is Some == decimal(v@.subrange(from as int, to as int), u64::MAX as nat) is Some,
        r matches Some(n) ==> decimal(v@.subrange(from as int, to as int), u64::MAX as nat)
            == Some(n as nat),
{
    let ghost s = v@.subrange(from as int, to as int);
    if from == to {
        return None;
    }
    let mut acc: u64 = 0;
    let mut i: usize = from;
    assert(s.take(0) =~= Seq::<char>::empty());
    while i < to
        invariant
            from <= i <= to <= v.len(),
            s == v@.subrange(from as int, to as int),
            all_digits(s.take(i - from)),
            acc == number_of(s.take(i - from)),
        decreases to - i,
    {
        let ghost k = i - from;
        assert(s[k] == v@[i as int]);
        assert(s.take(k + 1).drop_last() =~= s.take(k));
        assert(s.take(k + 1).last() == s[k]);
        match digit(v[i]) {
            None => {
                assert(!is_digit(s[k]));
                return None;
            },
            Some(d) => {
                if acc > (u64::MAX - d as u64) / 10 {
                    proof {
                        lemma_number_grows(s, k + 1);
                    }
                    return None;
                }
                acc = acc * 10 + d as u64;
                assert forall|j: int| 0 <= j < k + 1 implies is_digit(
                    #[trigger] s.take(k + 1)[j],
                ) by {
                    if j < k {
                        assert(s.take(k + 1)[j] == s.take(k)[j]);
                    }
                }
            },
        }
        i += 1;
    }
    assert(s.take(to - from) =~= s);
    Some(acc)
}

/// Reads the characters of `v` from `from` on as a number, after one optional `+`.
pub(crate) fn parse_signed_decimal(v: &Vec<char>, from: usize) -> (r: Option<u64>)
    requires
        from <= v.len(),
    ensures
        r is Some == signed_decimal(v@.skip(from as int), u64::MAX as nat) is Some,
        r matches Some(n) ==> signed_decimal(v@.skip(from as int), u64::MAX as nat) == Some(
            n as nat,
        ),
{
    let ghost s = v@.skip(from as int);
    if from < v.len() && v[from] == '+' {
        assert(s.skip(1) =~= v@.subrange(from + 1, v.len() as int));
        parse_decimal(v, from + 1, v.len())
    } else {
        assert(s =~= v@.subrange(from as int, v.len() as int));
        parse_decimal(v, from, v.len())
    }
}

/// Reads a text as a number in base ten: an optional `+`, then one digit or
/// more, and no more than fits.
pub fn parse_u64(s: &str) -> (r: Option<u64>)
    ensures
        (r == match signed_decimal(s@, u64::MAX as nat) {
            Some(n) => Some(n as u64),
            None => None,
        }),
{
    let v = chars_of(s);
    assert(v@.skip(0) =~= v@);
    parse_signed_decimal(&v, 0)
}

} // verus!
