//! What holds of texts: what was written can be read back.

use vstd::prelude::*;
use super::{
    ascii_lower, ascii_only, ascii_upper, column, dec, digit, has_part, has_prefix, hex2, hex_digit,
    hex_digit_value, int_dec, is_white, joined, lower, occurs_at, padded, right_column, signed_dec,
    spaced_hex, trimmed, upper, views, without_lead, without_trail,
};

verus! {

/// Whether every character is one of `0` to `9`.
pub open spec fn all_digits(s: Seq<char>) -> bool {
    forall|i: int| 0 <= i < s.len() ==> '0' <= #[trigger] s[i] <= '9'
}

/// The number that decimal digits stand for: each weighs ten times the one behind it.
pub open spec fn number(s: Seq<char>) -> int
    decreases s.len(),
{
    if s.len() == 0 {
        0
    } else {
        10 * number(s.drop_last()) + (s.last() as int - 48)
    }
}

/// A decimal notation holds digits alone, stands for its number, and has no leading zero
/// unless it is the zero itself.
pub proof fn law_decimals_read_back(n: nat)
    ensures
        dec(n).len() > 0,
        all_digits(dec(n)),
        number(dec(n)) == n,
        n > 0 ==> dec(n)[0] != '0',
        n == 0 ==> dec(n).len() == 1,
    decreases n,
{
    if n < 10 {
        let s = dec(n);
        assert(s =~= seq![digit(n)]);
        assert(s.drop_last() =~= Seq::<char>::empty());
        assert(number(s.drop_last()) == 0);
    } else {
        law_decimals_read_back(n / 10);
        let s = dec(n);
        assert(s.drop_last() =~= dec(n / 10));
        assert(s.last() == digit(n % 10));
    }
}

/// Different numbers have different notations.
pub proof fn law_decimals_differ(a: nat, b: nat)
    requires
        dec(a) == dec(b),
    ensures
        a == b,
{
    law_decimals_read_back(a);
    law_decimals_read_back(b);
}

/// A signed notation is a sign and the magnitude; zero and above have a `+`, or, in the
/// plain form, no sign.
pub proof fn law_signs(n: int)
    ensures
        n >= 0 ==> signed_dec(n)[0] == '+' && number(signed_dec(n).skip(1)) == n && all_digits(
            signed_dec(n).skip(1),
        ),
        n < 0 ==> signed_dec(n)[0] == '-' && number(signed_dec(n).skip(1)) == -n && all_digits(
            signed_dec(n).skip(1),
        ),
        n >= 0 ==> number(int_dec(n)) == n && all_digits(int_dec(n)),
        n < 0 ==> int_dec(n)[0] == '-' && number(int_dec(n).skip(1)) == -n && all_digits(
            int_dec(n).skip(1),
        ),
{
    let m = (if n < 0 {
        -n
    } else {
        n
    }) as nat;
    law_decimals_read_back(m);
    assert((seq!['-'] + dec(m)).skip(1) =~= dec(m));
    assert((seq!['+'] + dec(m)).skip(1) =~= dec(m));
}

/// The value of a hexadecimal digit, by its place among the characters.
pub open spec fn nibble(c: char) -> int {
    if '0' <= c <= '9' {
        c as int - 48
    } else if 'a' <= c <= 'f' {
        c as int - 97 + 10
    } else {
        c as int - 65 + 10
    }
}

/// A byte in hexadecimal is two digits, the high one first, and stands for the byte; its
/// letters are of the case asked for.
pub proof fn law_hex_reads_back(b: u8, up: bool)
    ensures
        hex2(b, up).len() == 2,
        16 * nibble(hex2(b, up)[0]) + nibble(hex2(b, up)[1]) == b,
        forall|i: int|
            0 <= i < 2 ==> {
                let c = #[trigger] hex2(b, up)[i];
                '0' <= c <= '9' || (up && 'A' <= c <= 'F') || (!up && 'a' <= c <= 'f')
            },
{
    let h = hex_digit((b / 16) as nat, up);
    let l = hex_digit((b % 16) as nat, up);
    assert(nibble(h) == b / 16);
    assert(nibble(l) == b % 16);
}

/// A hexadecimal digit reads as its value in either case, and nothing else reads as one.
pub proof fn law_hex_digits_have_values(c: char)
    ensures
        hex_digit_value(c) is Some <==> ('0' <= c <= '9' || 'a' <= c <= 'f' || 'A' <= c <= 'F'),
        hex_digit_value(c) matches Some(v) ==> v == nibble(c),
{
}

/// Spaced bytes: byte `i` stands at `3 * i`, a blank between two.
pub proof fn law_spaced_hex_places(bytes: Seq<u8>, up: bool, i: int)
    requires
        0 <= i < bytes.len(),
    ensures
        spaced_hex(bytes, up).len() == 3 * bytes.len() - 1,
        spaced_hex(bytes, up)[3 * i] == hex2(bytes[i], up)[0],
        spaced_hex(bytes, up)[3 * i + 1] == hex2(bytes[i], up)[1],
        i + 1 < bytes.len() ==> spaced_hex(bytes, up)[3 * i + 2] == ' ',
    decreases bytes.len(),
{
    if bytes.len() == 1 {
    } else {
        let init = bytes.drop_last();
        if i < init.len() {
            law_spaced_hex_places(init, up, i);
        } else {
            law_spaced_hex_places(init, up, i - 1);
        }
    }
}

/// A column holds its text at one end and blanks at the other, and is as wide as asked
/// for unless the text is wider.
pub proof fn law_columns(s: Seq<char>, w: nat, i: int)
    requires
        s.len() <= w,
        0 <= i < w,
    ensures
        column(s, w).len() == w,
        column(s, w)[i] == if i < s.len() {
            s[i]
        } else {
            ' '
        },
        right_column(s, w).len() == w,
        right_column(s, w)[i] == if i < w - s.len() {
            ' '
        } else {
            s[i - (w - s.len())]
        },
{
}

/// A text that is wider than its column is written whole.
pub proof fn law_wide_texts_stay_whole(s: Seq<char>, w: nat)
    requires
        s.len() >= w,
    ensures
        column(s, w) == s,
        right_column(s, w) == s,
        padded(s, w) == s,
{
    assert(column(s, w) =~= s);
    assert(right_column(s, w) =~= s);
}

/// Padding puts blanks in front.
pub proof fn law_padding_is_on_the_left(s: Seq<char>, w: nat)
    ensures
        padded(s, w) == right_column(s, w),
    decreases w - s.len(),
{
    if s.len() < w {
        law_padding_is_on_the_left(seq![' '] + s, w);
        assert(right_column(seq![' '] + s, w) =~= right_column(s, w));
    } else {
        assert(right_column(s, w) =~= s);
    }
}

/// Joining: nothing gives nothing, one text itself, and one more text a separator and
/// that text behind the rest.
pub proof fn law_joining(list: Seq<Seq<char>>, last: Seq<char>, sep: Seq<char>)
    ensures
        joined(Seq::empty(), sep).len() == 0,
        joined(seq![last], sep) == last,
        list.len() > 0 ==> joined(list.push(last), sep) == joined(list, sep) + sep + last,
{
    assert(list.push(last).drop_last() =~= list);
}

/// Lower case: `A` to `Z` move by 32 places, everything else stays; upper case undoes it
/// on letters.
pub proof fn law_letter_case(c: char)
    ensures
        'A' <= c <= 'Z' ==> ascii_lower(c) as int == c as int + 32,
        !('A' <= c <= 'Z') ==> ascii_lower(c) == c,
        'a' <= c <= 'z' ==> ascii_upper(c) as int == c as int - 32,
        !('a' <= c <= 'z') ==> ascii_upper(c) == c,
        'A' <= c <= 'Z' ==> ascii_upper(ascii_lower(c)) == c,
        'a' <= c <= 'z' ==> ascii_lower(ascii_upper(c)) == c,
{
}

/// Case changes a text character by character.
pub proof fn law_text_case(s: Seq<char>, i: int)
    requires
        0 <= i < s.len(),
    ensures
        lower(s).len() == s.len() && upper(s).len() == s.len(),
        'A' <= s[i] <= 'Z' ==> lower(s)[i] as int == s[i] as int + 32,
        !('A' <= s[i] <= 'Z') ==> lower(s)[i] == s[i],
        'a' <= s[i] <= 'z' ==> upper(s)[i] as int == s[i] as int - 32,
        !('a' <= s[i] <= 'z') ==> upper(s)[i] == s[i],
{
}

/// Text that begins with another, and that alone, has it as a prefix.
pub proof fn law_prefixes(prefix: Seq<char>, rest: Seq<char>, s: Seq<char>, i: int)
    ensures
        has_prefix(prefix + rest, prefix),
        has_prefix(s, prefix) && 0 <= i < prefix.len() ==> i < s.len() && s[i] == prefix[i],
{
    assert((prefix + rest).take(prefix.len() as int) =~= prefix);
    if has_prefix(s, prefix) && 0 <= i < prefix.len() {
        assert(s.take(prefix.len() as int)[i] == prefix[i]);
    }
}

/// A text has a part exactly when it is something, that part and something more.
pub proof fn law_parts(before: Seq<char>, part: Seq<char>, after: Seq<char>, s: Seq<char>)
    ensures
        has_part(before + part + after, part),
        has_part(s, part) ==> exists|a: Seq<char>, b: Seq<char>| s == #[trigger] (a + part + b),
{
    let whole = before + part + after;
    assert(whole.subrange(before.len() as int, (before.len() + part.len()) as int) =~= part);
    assert(occurs_at(whole, part, before.len() as int));
    if has_part(s, part) {
        let at = choose|at: int| occurs_at(s, part, at);
        let a = s.take(at);
        let b = s.skip(at + part.len());
        assert(s =~= a + part + b);
    }
}

/// Trimming takes white space off both ends and nothing else: what is left is a stretch
/// of the text, everything before and behind it is white, and neither of its ends is.
pub proof fn law_trimming(s: Seq<char>) -> (ends: (int, int))
    ensures
        0 <= ends.0 <= ends.1 <= s.len(),
        trimmed(s) == s.subrange(ends.0, ends.1),
        forall|i: int| 0 <= i < ends.0 ==> is_white(#[trigger] s[i]),
        forall|i: int| ends.1 <= i < s.len() ==> is_white(#[trigger] s[i]),
        trimmed(s).len() > 0 ==> !is_white(trimmed(s)[0]) && !is_white(trimmed(s).last()),
{
    let a = lemma_lead(s);
    let t = without_lead(s);
    let n = lemma_trail(t);
    assert(t.subrange(0, n) =~= s.subrange(a, a + n));
    assert forall|i: int| a + n <= i < s.len() implies is_white(#[trigger] s[i]) by {
        assert(s[i] == t[i - a]);
    }
    if n > 0 {
        assert(trimmed(s)[0] == t[0]);
    }
    (a, a + n)
}

proof fn lemma_lead(s: Seq<char>) -> (a: int)
    ensures
        0 <= a <= s.len(),
        without_lead(s) == s.subrange(a, s.len() as int),
        forall|i: int| 0 <= i < a ==> is_white(#[trigger] s[i]),
        a < s.len() ==> !is_white(s[a]),
    decreases s.len(),
{
    if s.len() > 0 && is_white(s[0]) {
        let rest = s.drop_first();
        let b = lemma_lead(rest);
        assert(rest.subrange(b, rest.len() as int) =~= s.subrange(b + 1, s.len() as int));
        assert forall|i: int| 0 <= i < b + 1 implies is_white(#[trigger] s[i]) by {
            if i > 0 {
                assert(rest[i - 1] == s[i]);
            }
        }
        b + 1
    } else {
        assert(s.subrange(0, s.len() as int) =~= s);
        0
    }
}

proof fn lemma_trail(s: Seq<char>) -> (n: int)
    ensures
        0 <= n <= s.len(),
        without_trail(s) == s.subrange(0, n),
        forall|i: int| n <= i < s.len() ==> is_white(#[trigger] s[i]),
        n > 0 ==> !is_white(s[n - 1]),
    decreases s.len(),
{
    if s.len() > 0 && is_white(s.last()) {
        let init = s.drop_last();
        let n = lemma_trail(init);
        assert(init.subrange(0, n) =~= s.subrange(0, n));
        assert forall|i: int| n <= i < s.len() implies is_white(#[trigger] s[i]) by {
            if i < init.len() {
                assert(init[i] == s[i]);
            }
        }
        n
    } else {
        assert(s.subrange(0, s.len() as int) =~= s);
        s.len() as int
    }
}

/// Blanks, tabs and line ends are white; no printable ASCII character is.
pub proof fn law_white_space(c: char)
    ensures
        c == ' ' || c == '\t' || c == '\n' || c == '\r' ==> is_white(c),
        0x21 <= c as u32 <= 0x7E ==> !is_white(c),
{
}

/// The first `n` pieces of a text, one behind the other.
pub open spec fn chained(pieces: Seq<Seq<char>>, n: nat) -> Seq<char>
    decreases n,
{
    if n == 0 {
        Seq::empty()
    } else if n == 1 {
        pieces[0]
    } else {
        chained(pieces, (n - 1) as nat) + pieces[n - 1]
    }
}

/// A text that has a part still has it when it goes on.
pub proof fn law_parts_stay(s: Seq<char>, more: Seq<char>, part: Seq<char>)
    requires
        has_part(s, part),
    ensures
        has_part(s + more, part),
{
    law_parts(Seq::empty(), part, Seq::empty(), s);
    let (a, b) = choose|a: Seq<char>, b: Seq<char>| s == #[trigger] (a + part + b);
    assert(s + more =~= a + part + (b + more));
    law_parts(a, part, b + more, s);
}

/// Three pieces that follow one another in a text are a part of it.
pub proof fn law_pieces_are_parts(pieces: Seq<Seq<char>>, n: nat, i: int)
    requires
        0 <= i,
        i + 3 <= n <= pieces.len(),
    ensures
        has_part(chained(pieces, n), pieces[i] + pieces[i + 1] + pieces[i + 2]),
    decreases n,
{
    let part = pieces[i] + pieces[i + 1] + pieces[i + 2];
    if n == i + 3 {
        reveal_with_fuel(chained, 4);
        let front = chained(pieces, i as nat);
        let none = Seq::<char>::empty();
        assert(chained(pieces, n) =~= front + part + none);
        law_parts(front, part, none, none);
    } else {
        law_pieces_are_parts(pieces, (n - 1) as nat, i);
        law_parts_stay(chained(pieces, (n - 1) as nat), pieces[n - 1], part);
    }
}

/// A character of an ASCII text is below 128, and a text of such characters is ASCII.
pub proof fn law_ascii_texts(s: Seq<char>, i: int, c: char)
    ensures
        ascii_only(s) && 0 <= i < s.len() ==> s[i] as u32 <= 127,
        ascii_only(s) && c as int <= 127 ==> ascii_only(s.push(c)),
        c as int > 127 ==> !ascii_only(s.push(c)),
        ascii_only(Seq::empty()),
{
    let t = s.push(c);
    assert(t[s.len() as int] == c);
    if ascii_only(s) && c as int <= 127 {
        assert forall|k: int| 0 <= k < t.len() implies (#[trigger] t[k]) as u32 <= 0x7f by {
            if k < s.len() {
                assert(t[k] == s[k]);
            }
        }
    }
}

/// A list of texts is taken text by text, in order.
pub proof fn law_views_in_order(list: Seq<String>, i: int)
    requires
        0 <= i < list.len(),
    ensures
        views(list).len() == list.len(),
        views(list)[i] == list[i]@,
{
}

} // verus!
