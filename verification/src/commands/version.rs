//! Firmware versions: as they are written, and as a firmware file's name carries
//! them.

use vstd::prelude::*;
use vstd::string::*;
use crate::parse::{fields, parse_unsigned, split, texts, unsigned_upto};
use crate::parse::laws::{
    law_decimals_are_one_field, law_joined_fields_read_back, law_numbers_read_back,
};
use crate::text::{chars_of, dec, joined};

verus! {

/// Why a text is not a version.
#[derive(Debug, Clone, Copy, PartialEq, Eq, Structural)]
pub enum VersionError {
    /// It does not have three components.
    NotATriplet,
    /// The component at this position is not a number from 0 to 255.
    Component(usize),
}

/// The byte that a component writes.
pub open spec fn component(s: Seq<char>) -> Option<u64> {
    unsigned_upto(s, 255)
}

/// The version of a `MAJOR.MINOR.PATCH` text; the first component that is not a byte
/// is named.
pub open spec fn version_of(s: Seq<char>) -> Result<Seq<u8>, VersionError> {
    let parts = fields(s, '.');
    if parts.len() != 3 {
        Err(VersionError::NotATriplet)
    } else if component(parts[0]) is None {
        Err(VersionError::Component(0))
    } else if component(parts[1]) is None {
        Err(VersionError::Component(1))
    } else if component(parts[2]) is None {
        Err(VersionError::Component(2))
    } else {
        Ok(
            seq![
                component(parts[0])->0 as u8,
                component(parts[1])->0 as u8,
                component(parts[2])->0 as u8,
            ],
        )
    }
}

/// Whether a parsed version is that of a text.
pub open spec fn is_version(r: Result<[u8; 3], VersionError>, s: Seq<char>) -> bool {
    match r {
        Ok(v) => version_of(s) == Ok::<Seq<u8>, VersionError>(v@),
        Err(e) => version_of(s) == Err::<Seq<u8>, VersionError>(e),
    }
}

fn parse_chars(s: &[char]) -> (r: Result<[u8; 3], VersionError>)
    ensures
        is_version(r, s@),
{
    let parts = split(s, '.');
    assert(texts(parts@).len() == parts@.len());
    if parts.len() != 3 {
        return Err(VersionError::NotATriplet);
    }
    assert(texts(parts@)[0] == parts@[0]@);
    assert(texts(parts@)[1] == parts@[1]@);
    assert(texts(parts@)[2] == parts@[2]@);
    match parse_unsigned(&parts[0], 255) {
        None => Err(VersionError::Component(0)),
        Some(major) => match parse_unsigned(&parts[1], 255) {
            None => Err(VersionError::Component(1)),
            Some(minor) => match parse_unsigned(&parts[2], 255) {
                None => Err(VersionError::Component(2)),
                Some(patch) => {
                    let v = [major as u8, minor as u8, patch as u8];
                    assert(v@ =~= seq![major as u8, minor as u8, patch as u8]);
                    Ok(v)
                },
            },
        },
    }
}

/// Parse a `MAJOR.MINOR.PATCH` version into the three bytes of a firmware header.
pub fn parse_version_triplet(s: &str) -> (r: Result<[u8; 3], VersionError>)
    ensures
        is_version(r, s@),
{
    let chars = chars_of(s);
    parse_chars(&chars)
}

/// Whether a character can stand in a version.
pub open spec fn version_char(c: char) -> bool {
    '0' <= c <= '9' || c == '.'
}

/// The digits and dots that a text begins with.
pub open spec fn version_run(s: Seq<char>) -> Seq<char>
    decreases s.len(),
{
    if s.len() == 0 || !version_char(s[0]) {
        Seq::empty()
    } else {
        seq![s[0]] + version_run(s.skip(1))
    }
}

/// A text without the dots at its end.
pub open spec fn without_end_dots(s: Seq<char>) -> Seq<char>
    decreases s.len(),
{
    if s.len() > 0 && s.last() == '.' {
        without_end_dots(s.drop_last())
    } else {
        s
    }
}

/// The version that stands behind a `V` or `v` at position `at`, if one does.
pub open spec fn marked_at(s: Seq<char>, at: int) -> Option<Seq<u8>> {
    if s[at] == 'V' || s[at] == 'v' {
        match version_of(without_end_dots(version_run(s.skip(at + 1)))) {
            Ok(v) => Some(v),
            Err(_) => None,
        }
    } else {
        None
    }
}

/// The first version marked in a name from position `from` on.
pub open spec fn first_marked(s: Seq<char>, from: int) -> Option<Seq<u8>>
    decreases s.len() - from,
{
    if from >= s.len() {
        None
    } else if marked_at(s, from) is Some {
        marked_at(s, from)
    } else {
        first_marked(s, from + 1)
    }
}

proof fn lemma_version_run(s: Seq<char>, n: int)
    requires
        0 <= n <= s.len(),
        forall|k: int| 0 <= k < n ==> version_char(#[trigger] s[k]),
        n < s.len() ==> !version_char(s[n]),
    ensures
        version_run(s) == s.take(n),
    decreases s.len(),
{
    if n > 0 {
        let rest = s.skip(1);
        assert forall|k: int| 0 <= k < n - 1 implies version_char(#[trigger] rest[k]) by {
            assert(rest[k] == s[k + 1]);
        }
        lemma_version_run(rest, n - 1);
        assert(seq![s[0]] + rest.take(n - 1) =~= s.take(n));
    } else {
        assert(s.take(0) =~= Seq::empty());
    }
}

/// The version that a firmware file's name carries as `V<major>.<minor>.<patch>`, in
/// either case: the first such marker that is a version. `None` where there is none.
pub fn version_from_filename(name: &str) -> (r: Option<[u8; 3]>)
    ensures
        match r {
            Some(v) => first_marked(name@, 0) == Some(v@),
            None => first_marked(name@, 0) is None,
        },
{
    let chars = chars_of(name);
    let mut i: usize = 0;
    while i < chars.len()
        invariant
            i <= chars@.len(),
            chars@ == name@,
            first_marked(name@, 0) == first_marked(name@, i as int),
        decreases chars@.len() - i,
    {
        if chars[i] == 'V' || chars[i] == 'v' {
            let mut end: usize = i + 1;
            while end < chars.len() && (('0' <= chars[end] && chars[end] <= '9') || chars[end]
                == '.')
                invariant
                    i < end <= chars@.len(),
                    forall|k: int| i < k < end ==> version_char(#[trigger] chars@[k]),
                decreases chars@.len() - end,
            {
                end += 1;
            }
            let ghost rest = chars@.skip(i + 1);
            let ghost n = end - i - 1;
            proof {
                assert forall|k: int| 0 <= k < n implies version_char(#[trigger] rest[k]) by {
                    assert(rest[k] == chars@[i + 1 + k]);
                }
                lemma_version_run(rest, n);
                assert(chars@.subrange(i + 1, end as int) == rest.take(n));
            }
            let mut stop: usize = end;
            while stop > i + 1 && chars[stop - 1] == '.'
                invariant
                    i < stop <= end <= chars@.len(),
                    without_end_dots(chars@.subrange(i + 1, end as int)) == without_end_dots(
                        chars@.subrange(i + 1, stop as int),
                    ),
                decreases stop,
            {
                assert(chars@.subrange(i + 1, stop as int).drop_last() == chars@.subrange(
                    i + 1,
                    stop - 1,
                ));
                stop -= 1;
            }
            if let Ok(v) = parse_chars(vstd::slice::slice_subrange(&chars, i + 1, stop)) {
                return Some(v);
            }
        }
        i += 1;
    }
    None
}

/// Three bytes in decimal with dots between them are that version.
pub proof fn law_versions_read_back(a: u8, b: u8, c: u8)
    ensures
        ({
            let text = joined(seq![dec(a as nat), dec(b as nat), dec(c as nat)], seq!['.']);
            version_of(text) == Ok::<Seq<u8>, VersionError>(seq![a, b, c])
        }),
{
    let p = seq![dec(a as nat), dec(b as nat), dec(c as nat)];
    law_decimals_are_one_field(a as nat, '.');
    law_decimals_are_one_field(b as nat, '.');
    law_decimals_are_one_field(c as nat, '.');
    law_joined_fields_read_back(p, '.');
    law_numbers_read_back(a as nat, 255);
    law_numbers_read_back(b as nat, 255);
    law_numbers_read_back(c as nat, 255);
}

/// A component past 255 is refused by its place; so is a text that has not three.
pub proof fn law_versions_are_bytes(a: nat, b: nat, c: nat)
    ensures
        ({
            let text = joined(seq![dec(a), dec(b), dec(c)], seq!['.']);
            &&& a > 255 ==> version_of(text) == Err::<Seq<u8>, VersionError>(
                VersionError::Component(0),
            )
            &&& a <= 255 && b > 255 ==> version_of(text) == Err::<Seq<u8>, VersionError>(
                VersionError::Component(1),
            )
            &&& a <= 255 && b <= 255 && c > 255 ==> version_of(text) == Err::<
                Seq<u8>,
                VersionError,
            >(VersionError::Component(2))
        }),
        version_of(joined(seq![dec(a), dec(b)], seq!['.'])) == Err::<Seq<u8>, VersionError>(
            VersionError::NotATriplet,
        ),
        version_of(dec(a)) == Err::<Seq<u8>, VersionError>(VersionError::NotATriplet),
{
    let p = seq![dec(a), dec(b), dec(c)];
    law_decimals_are_one_field(a, '.');
    law_decimals_are_one_field(b, '.');
    law_decimals_are_one_field(c, '.');
    law_joined_fields_read_back(p, '.');
    law_joined_fields_read_back(seq![dec(a), dec(b)], '.');
    law_joined_fields_read_back(seq![dec(a)], '.');
    law_numbers_read_back(a, 255);
    law_numbers_read_back(b, 255);
    law_numbers_read_back(c, 255);
}

/// The version marked in a name is found behind its first `V`, whatever its case, and
/// whatever stands before and behind it, dots at its end aside.
pub proof fn law_marked_versions_are_found(
    before: Seq<char>,
    mark: char,
    a: u8,
    b: u8,
    c: u8,
    after: Seq<char>,
)
    requires
        mark == 'V' || mark == 'v',
        forall|i: int| 0 <= i < before.len() ==> #[trigger] before[i] != 'V' && before[i] != 'v',
        after.len() > 0 ==> !('0' <= after[0] <= '9') && after[0] != '.',
    ensures
        ({
            let version = joined(seq![dec(a as nat), dec(b as nat), dec(c as nat)], seq!['.']);
            first_marked(before + seq![mark] + version + after, 0) == Some(seq![a, b, c])
        }),
{
    let p = seq![dec(a as nat), dec(b as nat), dec(c as nat)];
    let version = joined(p, seq!['.']);
    let name = before + seq![mark] + version + after;
    law_versions_read_back(a, b, c);
    crate::text::laws::law_decimals_read_back(a as nat);
    crate::text::laws::law_decimals_read_back(b as nat);
    crate::text::laws::law_decimals_read_back(c as nat);
    let at = before.len() as int;
    let rest = name.skip(at + 1);
    assert(rest =~= version + after);
    reveal_with_fuel(joined, 4);
    assert(p.drop_last() =~= seq![dec(a as nat), dec(b as nat)]);
    assert(p.drop_last().drop_last() =~= seq![dec(a as nat)]);
    assert(version =~= dec(a as nat) + seq!['.'] + dec(b as nat) + seq!['.'] + dec(c as nat));
    let (x, y, z) = (dec(a as nat), dec(b as nat), dec(c as nat));
    assert forall|k: int| 0 <= k < version.len() implies version_char(#[trigger] rest[k]) by {
        let (m, n) = (x.len() as int, (x.len() + 1 + y.len()) as int);
        if k < m {
            assert(rest[k] == x[k]);
        } else if m < k && k < n {
            assert(rest[k] == y[k - m - 1]);
        } else if k > n {
            assert(rest[k] == z[k - n - 1]);
        }
    }
    lemma_version_run(rest, version.len() as int);
    assert(rest.take(version.len() as int) =~= version);
    assert(version.last() == z[z.len() - 1]);
    assert(without_end_dots(version) == version);
    assert(name[at] == mark);
    assert(marked_at(name, at) == Some(seq![a, b, c]));
    lemma_unmarked(name, 0, at);
}

proof fn lemma_unmarked(s: Seq<char>, from: int, at: int)
    requires
        0 <= from <= at < s.len(),
        forall|i: int| from <= i < at ==> #[trigger] s[i] != 'V' && s[i] != 'v',
        marked_at(s, at) is Some,
    ensures
        first_marked(s, from) == marked_at(s, at),
    decreases at - from,
{
    if from < at {
        assert(s[from] != 'V' && s[from] != 'v');
        lemma_unmarked(s, from + 1, at);
    }
}

/// A version that was read is that of its text, and so is a refusal.
pub proof fn law_read_versions(a: u8, b: u8, c: u8, r: Result<[u8; 3], VersionError>)
    requires
        is_version(
            r,
            joined(seq![dec(a as nat), dec(b as nat), dec(c as nat)], seq!['.']),
        ),
    ensures
        r is Ok,
        r->Ok_0@ == seq![a, b, c],
{
    law_versions_read_back(a, b, c);
}

} // verus!
