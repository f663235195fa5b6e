//! Reading numbers and fields out of texts.

use vstd::prelude::*;

pub mod laws;

verus! {

/// The value of a decimal digit.
pub open spec fn digit_value(c: char) -> Option<nat> {
    if '0' <= c <= '9' {
        Some((c as int - '0' as int) as nat)
    } else {
        None
    }
}

/// The number that a run of decimal digits writes; `None` where the text is empty
/// or holds anything else.
pub open spec fn digits_value(s: Seq<char>) -> Option<nat>
    decreases s.len(),
{
    if s.len() == 0 {
        None
    } else {
        match digit_value(s.last()) {
            None => None,
            Some(d) => if s.len() == 1 {
                Some(d)
            } else {
                match digits_value(s.drop_last()) {
                    None => None,
                    Some(v) => Some(v * 10 + d),
                }
            },
        }
    }
}

/// The number that an unsigned text writes: digits, with or without a `+`.
pub open spec fn unsigned_value(s: Seq<char>) -> Option<nat> {
    if s.len() > 0 && s[0] == '+' {
        digits_value(s.skip(1))
    } else {
        digits_value(s)
    }
}

/// The number that a signed text writes: digits, with or without a sign.
pub open spec fn signed_value(s: Seq<char>) -> Option<int> {
    if s.len() > 0 && s[0] == '-' {
        match digits_value(s.skip(1)) {
            Some(v) => Some(-(v as int)),
            None => None,
        }
    } else {
        match unsigned_value(s) {
            Some(v) => Some(v as int),
            None => None,
        }
    }
}

/// The unsigned number of a text, if it is at most `max`.
pub open spec fn unsigned_upto(s: Seq<char>, max: u64) -> Option<u64> {
    match unsigned_value(s) {
        Some(v) => if v <= max {
            Some(v as u64)
        } else {
            None
        },
        None => None,
    }
}

/// The number of a longer text is at least that of its beginning.
proof fn lemma_digits_grow(s: Seq<char>, n: int)
    requires
        0 < n <= s.len(),
        digits_value(s) is Some,
    ensures
        digits_value(s.take(n)) is Some,
        digits_value(s.take(n))->0 <= digits_value(s)->0,
    decreases s.len(),
{
    if n == s.len() {
        assert(s.take(n) == s);
    } else {
        lemma_digits_grow(s.drop_last(), n);
        assert(s.drop_last().take(n) == s.take(n));
    }
}

/// The number that the characters from `from` on write as decimal digits, if it is
/// at most `max`.
fn digits_from(s: &[char], from: usize, max: u64) -> (r: Option<u64>)
    requires
        from <= s@.len(),
    ensures
        r == match digits_value(s@.skip(from as int)) {
            Some(v) => if v <= max {
                Some(v as u64)
            } else {
                None
            },
            None => None,
        },
{
    let ghost t = s@.skip(from as int);
    if from == s.len() {
        return None;
    }
    let mut value: u64 = 0;
    let mut i: usize = from;
    while i < s.len()
        invariant
            from <= i <= s@.len(),
            from < s@.len(),
            t == s@.skip(from as int),
            i == from ==> value == 0,
            i > from ==> digits_value(t.take(i - from)) == Some(value as nat),
            value <= max,
        decreases s@.len() - i,
    {
        let c = s[i];
        proof {
            let n = i - from + 1;
            assert(t.take(n).drop_last() == t.take(n - 1));
            assert(t.take(n).last() == c);
            if digits_value(t) is Some {
                lemma_digits_grow(t, n);
            }
        }
        if !('0' <= c && c <= '9') {
            return None;
        }
        let d: u64 = (c as u32 - 48) as u64;
        if value > (u64::MAX - d) / 10 {
            return None;
        }
        value = value * 10 + d;
        if value > max {
            return None;
        }
        i += 1;
    }
    assert(t.take(i - from) == t);
    Some(value)
}

/// The unsigned number of a text, if it is at most `max`.
pub fn parse_unsigned(s: &[char], max: u64) -> (r: Option<u64>)
    ensures
        r == unsigned_upto(s@, max),
{
    if s.len() > 0 && s[0] == '+' {
        digits_from(s, 1, max)
    } else {
        assert(s@.skip(0) == s@);
        digits_from(s, 0, max)
    }
}

/// The signed number of a text, if an `i8` holds it.
pub open spec fn signed_byte(s: Seq<char>) -> Option<i8> {
    match signed_value(s) {
        Some(v) => if -128 <= v <= 127 {
            Some(v as i8)
        } else {
            None
        },
        None => None,
    }
}

/// The signed number of a text, if an `i8` holds it.
pub fn parse_signed_byte(s: &[char]) -> (r: Option<i8>)
    ensures
        r == signed_byte(s@),
{
    if s.len() > 0 && s[0] == '-' {
        match digits_from(s, 1, 128) {
            Some(v) => Some((0 - v as i64) as i8),
            None => None,
        }
    } else {
        match parse_unsigned(s, 127) {
            Some(v) => Some(v as i8),
            None => None,
        }
    }
}

/// The fields of a text: what stands between the separators, at least one.
pub open spec fn fields(s: Seq<char>, sep: char) -> Seq<Seq<char>>
    decreases s.len(),
{
    if s.len() == 0 {
        seq![Seq::empty()]
    } else {
        let before = fields(s.drop_last(), sep);
        if s.last() == sep {
            before.push(Seq::empty())
        } else {
            before.drop_last().push(before.last().push(s.last()))
        }
    }
}

/// The texts of a list.
pub open spec fn texts(v: Seq<Vec<char>>) -> Seq<Seq<char>> {
    Seq::new(v.len(), |i: int| v[i]@)
}

/// The fields of a text.
pub fn split(s: &[char], sep: char) -> (r: Vec<Vec<char>>)
    ensures
        texts(r@) == fields(s@, sep),
        r@.len() > 0,
{
    let mut out: Vec<Vec<char>> = Vec::new();
    let mut current: Vec<char> = Vec::new();
    let mut i: usize = 0;
    while i < s.len()
        invariant
            i <= s@.len(),
            texts(out@).push(current@) == fields(s@.take(i as int), sep),
        decreases s@.len() - i,
    {
        let c = s[i];
        proof {
            assert(s@.take(i + 1).drop_last() == s@.take(i as int));
            assert(texts(out@) == texts(out@).push(current@).drop_last());
        }
        if c == sep {
            let ghost before = out@;
            let done = current;
            current = Vec::new();
            let ghost finished = done@;
            out.push(done);
            assert(texts(out@) == texts(before).push(finished));
        } else {
            current.push(c);
        }
        i += 1;
    }
    proof {
        assert(s@.take(i as int) == s@);
    }
    let ghost before = out@;
    let ghost finished = current@;
    out.push(current);
    assert(texts(out@) == texts(before).push(finished));
    out
}

} // verus!
