//! Text building blocks: decimal and hexadecimal digits, ASCII case, and the
//! few string searches the bridge needs, each stated over `Seq<char>`.

use vstd::prelude::*;
use vstd::string::*;

pub mod laws;

verus! {

/// `String::push` of std: appends one character.
pub assume_specification[ String::push ](s: &mut String, c: char)
    ensures
        final(s)@ == old(s)@.push(c),
;

/// The decimal digit character of `d`, for `d` below ten.
pub open spec fn digit(d: nat) -> char {
    if d == 0 {
        '0'
    } else if d == 1 {
        '1'
    } else if d == 2 {
        '2'
    } else if d == 3 {
        '3'
    } else if d == 4 {
        '4'
    } else if d == 5 {
        '5'
    } else if d == 6 {
        '6'
    } else if d == 7 {
        '7'
    } else if d == 8 {
        '8'
    } else {
        '9'
    }
}

/// The decimal notation of `n`, without leading zeros.
pub open spec fn dec(n: nat) -> Seq<char>
    decreases n,
{
    if n < 10 {
        seq![digit(n)]
    } else {
        dec(n / 10).push(digit(n % 10))
    }
}

/// The decimal notation of `n` with a sign, `+` for zero and above.
pub open spec fn signed_dec(n: int) -> Seq<char> {
    if n < 0 {
        seq!['-'] + dec((-n) as nat)
    } else {
        seq!['+'] + dec(n as nat)
    }
}

/// The decimal notation of `n`, with a sign only below zero.
pub open spec fn int_dec(n: int) -> Seq<char> {
    if n < 0 {
        seq!['-'] + dec((-n) as nat)
    } else {
        dec(n as nat)
    }
}

/// `s` padded on the left with blanks to at least `width` characters.
pub open spec fn padded(s: Seq<char>, width: nat) -> Seq<char>
    decreases width - s.len(),
{
    if s.len() >= width {
        s
    } else {
        padded(seq![' '] + s, width)
    }
}

/// Blanks.
pub open spec fn blanks(n: int) -> Seq<char> {
    Seq::new(
        if n > 0 {
            n as nat
        } else {
            0
        },
        |i: int| ' ',
    )
}

/// `s` at the left of a column of `width` characters.
pub open spec fn column(s: Seq<char>, width: nat) -> Seq<char> {
    s + blanks(width - s.len())
}

/// `s` at the right of a column of `width` characters.
pub open spec fn right_column(s: Seq<char>, width: nat) -> Seq<char> {
    blanks(width - s.len()) + s
}

fn push_blanks(out: &mut String, n: usize)
    ensures
        final(out)@ == old(out)@ + blanks(n as int),
{
    let mut i: usize = 0;
    assert(out@ =~= old(out)@ + blanks(0));
    while i < n
        invariant
            i <= n,
            out@ == old(out)@ + blanks(i as int),
        decreases n - i,
    {
        out.push(' ');
        i += 1;
        assert(out@ =~= old(out)@ + blanks(i as int));
    }
}

/// Append a text at the left of a column.
pub fn push_column(out: &mut String, s: &str, width: usize)
    ensures
        final(out)@ == old(out)@ + column(s@, width as nat),
{
    let n: usize = s.unicode_len();
    out.append(s);
    if n < width {
        push_blanks(out, width - n);
    }
    assert(out@ =~= old(out)@ + column(s@, width as nat));
}

/// Append a text at the right of a column.
pub fn push_right_column(out: &mut String, s: &str, width: usize)
    ensures
        final(out)@ == old(out)@ + right_column(s@, width as nat),
{
    let n: usize = s.unicode_len();
    if n < width {
        push_blanks(out, width - n);
    }
    out.append(s);
    assert(out@ =~= old(out)@ + right_column(s@, width as nat));
}

/// Texts with a separator between them.
pub open spec fn joined(list: Seq<Seq<char>>, sep: Seq<char>) -> Seq<char>
    decreases list.len(),
{
    if list.len() == 0 {
        Seq::empty()
    } else if list.len() == 1 {
        list[0]
    } else {
        joined(list.drop_last(), sep) + sep + list.last()
    }
}

/// The characters of texts.
pub open spec fn views(texts: Seq<String>) -> Seq<Seq<char>> {
    Seq::new(texts.len(), |i: int| texts[i]@)
}

/// Append texts with a separator between them.
pub fn push_joined(out: &mut String, list: &[String], sep: &str)
    ensures
        final(out)@ == old(out)@ + joined(views(list@), sep@),
{
    let ghost all = views(list@);
    let mut i: usize = 0;
    assert(out@ =~= old(out)@ + joined(all.take(0), sep@));
    while i < list.len()
        invariant
            i <= list@.len(),
            all == views(list@),
            out@ == old(out)@ + joined(all.take(i as int), sep@),
        decreases list@.len() - i,
    {
        proof {
            assert(all.take(i + 1).drop_last() == all.take(i as int));
            assert(all.take(i + 1).last() == list@[i as int]@);
        }
        if i > 0 {
            out.append(sep);
        }
        out.append(list[i].as_str());
        i += 1;
        assert(out@ =~= old(out)@ + joined(all.take(i as int), sep@));
    }
    assert(all.take(i as int) == all);
}

fn digit_char(d: u8) -> (c: char)
    requires
        d < 10,
    ensures
        c == digit(d as nat),
{
    match d {
        0 => '0',
        1 => '1',
        2 => '2',
        3 => '3',
        4 => '4',
        5 => '5',
        6 => '6',
        7 => '7',
        8 => '8',
        _ => '9',
    }
}

/// Append the decimal notation of `n`.
pub fn push_dec(out: &mut String, n: u64)
    ensures
        final(out)@ == old(out)@ + dec(n as nat),
    decreases n,
{
    if n >= 10 {
        push_dec(out, n / 10);
    }
    out.push(digit_char((n % 10) as u8));
    assert(out@ =~= old(out)@ + dec(n as nat));
}

/// Append `n` with an explicit sign.
pub fn push_signed_dec(out: &mut String, n: i64)
    requires
        n > i64::MIN,
    ensures
        final(out)@ == old(out)@ + signed_dec(n as int),
{
    if n < 0 {
        out.push('-');
        push_dec(out, (-n) as u64);
    } else {
        out.push('+');
        push_dec(out, n as u64);
    }
    assert(out@ =~= old(out)@ + signed_dec(n as int));
}

/// Append `n`, with a sign only below zero.
pub fn push_int_dec(out: &mut String, n: i64)
    requires
        n > i64::MIN,
    ensures
        final(out)@ == old(out)@ + int_dec(n as int),
{
    if n < 0 {
        out.push('-');
        push_dec(out, (-n) as u64);
    } else {
        push_dec(out, n as u64);
    }
    assert(out@ =~= old(out)@ + int_dec(n as int));
}

/// The hexadecimal digit of `d`, for `d` below sixteen.
pub open spec fn hex_digit(d: nat, upper: bool) -> char {
    if d < 10 {
        digit(d)
    } else if d == 10 {
        if upper { 'A' } else { 'a' }
    } else if d == 11 {
        if upper { 'B' } else { 'b' }
    } else if d == 12 {
        if upper { 'C' } else { 'c' }
    } else if d == 13 {
        if upper { 'D' } else { 'd' }
    } else if d == 14 {
        if upper { 'E' } else { 'e' }
    } else {
        if upper { 'F' } else { 'f' }
    }
}

/// A byte as two hexadecimal digits.
pub open spec fn hex2(b: u8, upper: bool) -> Seq<char> {
    seq![hex_digit((b / 16) as nat, upper), hex_digit((b % 16) as nat, upper)]
}

fn hex_char(d: u8, upper: bool) -> (c: char)
    requires
        d < 16,
    ensures
        c == hex_digit(d as nat, upper),
{
    if d < 10 {
        digit_char(d)
    } else {
        match d {
            10 => if upper { 'A' } else { 'a' },
            11 => if upper { 'B' } else { 'b' },
            12 => if upper { 'C' } else { 'c' },
            13 => if upper { 'D' } else { 'd' },
            14 => if upper { 'E' } else { 'e' },
            _ => if upper { 'F' } else { 'f' },
        }
    }
}

/// Append a byte as two hexadecimal digits.
pub fn push_hex2(out: &mut String, b: u8, upper: bool)
    ensures
        final(out)@ == old(out)@ + hex2(b, upper),
{
    out.push(hex_char(b / 16, upper));
    out.push(hex_char(b % 16, upper));
    assert(out@ =~= old(out)@ + hex2(b, upper));
}

/// Bytes as two hexadecimal digits each, with a space between them.
pub open spec fn spaced_hex(bytes: Seq<u8>, upper: bool) -> Seq<char>
    decreases bytes.len(),
{
    if bytes.len() == 0 {
        Seq::empty()
    } else if bytes.len() == 1 {
        hex2(bytes[0], upper)
    } else {
        spaced_hex(bytes.drop_last(), upper).push(' ') + hex2(bytes.last(), upper)
    }
}

/// Append bytes as two hexadecimal digits each, with a space between them.
pub fn push_spaced_hex(out: &mut String, bytes: &[u8], upper: bool)
    ensures
        final(out)@ == old(out)@ + spaced_hex(bytes@, upper),
{
    let mut i: usize = 0;
    assert(out@ =~= old(out)@ + spaced_hex(bytes@.take(0), upper));
    while i < bytes.len()
        invariant
            i <= bytes@.len(),
            out@ == old(out)@ + spaced_hex(bytes@.take(i as int), upper),
        decreases bytes@.len() - i,
    {
        proof {
            assert(bytes@.take(i + 1).drop_last() == bytes@.take(i as int));
            assert(bytes@.take(i + 1).last() == bytes@[i as int]);
        }
        if i > 0 {
            out.push(' ');
        }
        push_hex2(out, bytes[i], upper);
        i += 1;
        assert(out@ =~= old(out)@ + spaced_hex(bytes@.take(i as int), upper));
    }
    assert(bytes@.take(i as int) == bytes@);
}

/// The characters of a string, in order.
pub fn chars_of(s: &str) -> (v: Vec<char>)
    ensures
        v@ == s@,
{
    let mut v: Vec<char> = Vec::new();
    for c in it: s.chars()
        invariant
            it.seq() == s@,
            v@ == s@.take(it.index() as int),
    {
        v.push(c);
        assert(v@ =~= s@.take(it.index() + 1));
    }
    assert(s@.take(s@.len() as int) =~= s@);
    v
}

/// The string with the given characters.
pub fn string_of(chars: &[char]) -> (s: String)
    ensures
        s@ == chars@,
{
    let mut s = String::new();
    let mut i: usize = 0;
    while i < chars.len()
        invariant
            i <= chars.len(),
            s@ == chars@.take(i as int),
        decreases chars.len() - i,
    {
        s.push(chars[i]);
        i += 1;
        assert(s@ =~= chars@.take(i as int));
    }
    assert(chars@.take(chars@.len() as int) =~= chars@);
    s
}

/// Whether `s` begins with `prefix`.
pub open spec fn has_prefix(s: Seq<char>, prefix: Seq<char>) -> bool {
    prefix.len() <= s.len() && s.take(prefix.len() as int) == prefix
}

/// Whether `needle` stands in `s` at position `at`.
pub open spec fn occurs_at(s: Seq<char>, needle: Seq<char>, at: int) -> bool {
    0 <= at <= s.len() - needle.len() && s.subrange(at, at + needle.len()) == needle
}

/// Whether `needle` stands anywhere in `s`.
pub open spec fn has_part(s: Seq<char>, needle: Seq<char>) -> bool {
    exists|at: int| occurs_at(s, needle, at)
}

/// The lower-case form of an ASCII letter; any other character as it is.
pub open spec fn ascii_lower(c: char) -> char {
    if 'A' <= c && c <= 'Z' {
        (c as u32 + 32) as char
    } else {
        c
    }
}

/// The upper-case form of an ASCII letter; any other character as it is.
pub open spec fn ascii_upper(c: char) -> char {
    if 'a' <= c && c <= 'z' {
        (c as u32 - 32) as char
    } else {
        c
    }
}

/// A text with its ASCII letters in lower case.
pub open spec fn lower(s: Seq<char>) -> Seq<char> {
    Seq::new(s.len(), |i: int| ascii_lower(s[i]))
}

/// A text with its ASCII letters in upper case.
pub open spec fn upper(s: Seq<char>) -> Seq<char> {
    Seq::new(s.len(), |i: int| ascii_upper(s[i]))
}

/// Whether all characters are ASCII.
pub open spec fn ascii_only(s: Seq<char>) -> bool {
    forall|i: int| 0 <= i < s.len() ==> (#[trigger] s[i]) as u32 <= 0x7f
}

fn lower_char(c: char) -> (r: char)
    ensures
        r == ascii_lower(c),
{
    if 'A' <= c && c <= 'Z' {
        (c as u8 + 32) as char
    } else {
        c
    }
}

/// A text with its ASCII letters in lower case.
pub fn to_lower(s: &str) -> (r: Vec<char>)
    ensures
        r@ == lower(s@),
{
    let v = chars_of(s);
    let mut r: Vec<char> = Vec::new();
    let mut i: usize = 0;
    while i < v.len()
        invariant
            v@ == s@,
            i <= v.len(),
            r@ == lower(s@).take(i as int),
        decreases v.len() - i,
    {
        r.push(lower_char(v[i]));
        i += 1;
        assert(r@ =~= lower(s@).take(i as int));
    }
    assert(r@ =~= lower(s@));
    r
}

/// Whether two character runs are equal.
pub fn same_chars(a: &[char], b: &[char]) -> (r: bool)
    ensures
        r == (a@ == b@),
{
    if a.len() != b.len() {
        return false;
    }
    let mut i: usize = 0;
    while i < a.len()
        invariant
            i <= a.len(),
            a.len() == b.len(),
            forall|k: int| 0 <= k < i ==> a@[k] == b@[k],
        decreases a.len() - i,
    {
        if a[i] != b[i] {
            return false;
        }
        i += 1;
    }
    assert(a@ =~= b@);
    true
}

/// Whether two texts are equal.
pub fn same_text(a: &str, b: &str) -> (r: bool)
    ensures
        r == (a@ == b@),
{
    let x = chars_of(a);
    let y = chars_of(b);
    same_chars(&x, &y)
}

/// Whether the characters are those of a text.
pub fn spells(chars: &[char], text: &str) -> (r: bool)
    ensures
        r == (chars@ == text@),
{
    let t = chars_of(text);
    same_chars(chars, &t)
}

/// Whether the characters begin with `prefix`.
pub fn starts_with(s: &[char], prefix: &str) -> (r: bool)
    ensures
        r == has_prefix(s@, prefix@),
{
    let p = chars_of(prefix);
    if p.len() > s.len() {
        return false;
    }
    let head: &[char] = vstd::slice::slice_subrange(s, 0, p.len());
    assert(head@ =~= s@.take(p@.len() as int));
    same_chars(head, &p)
}

/// Whether `needle` stands anywhere in the characters.
pub fn contains(s: &[char], needle: &[char]) -> (r: bool)
    ensures
        r == has_part(s@, needle@),
{
    if needle.len() > s.len() {
        return false;
    }
    let last: usize = s.len() - needle.len();
    let mut i: usize = 0;
    loop
        invariant
            last == s.len() - needle.len(),
            i <= last,
            forall|k: int| 0 <= k < i ==> !occurs_at(s@, needle@, k),
        decreases last - i,
    {
        let part: &[char] = vstd::slice::slice_subrange(s, i, i + needle.len());
        if same_chars(part, needle) {
            assert(occurs_at(s@, needle@, i as int));
            return true;
        }
        if i == last {
            return false;
        }
        i += 1;
    }
}

/// What `str::to_lowercase` gives: the Unicode lower-case form of a text.
pub uninterp spec fn unicode_lower(s: Seq<char>) -> Seq<char>;

/// `str::to_lowercase` of std. Its result depends on the text alone; on ASCII
/// texts it is the ASCII lower-case form. What it gives on other texts is left to
/// the name.
#[verifier::external_body]
pub(crate) fn to_unicode_lower(s: &str) -> (r: String)
    ensures
        r@ == unicode_lower(s@),
        ascii_only(s@) ==> r@ == lower(s@),
{
    s.to_lowercase()
}

/// What `str::to_uppercase` gives: the Unicode upper-case form of a text.
pub uninterp spec fn unicode_upper(s: Seq<char>) -> Seq<char>;

/// `str::to_uppercase` of std. Its result depends on the text alone; on ASCII
/// texts it is the ASCII upper-case form. What it gives on other texts is left to
/// the name.
#[verifier::external_body]
pub(crate) fn to_unicode_upper(s: &str) -> (r: String)
    ensures
        r@ == unicode_upper(s@),
        ascii_only(s@) ==> r@ == upper(s@),
{
    s.to_uppercase()
}

/// Whether a character is white space in the sense of Unicode.
pub open spec fn is_white(c: char) -> bool {
    let u = c as u32;
    ||| 0x09 <= u <= 0x0D
    ||| u == 0x20 || u == 0x85 || u == 0xA0 || u == 0x1680
    ||| 0x2000 <= u <= 0x200A
    ||| u == 0x2028 || u == 0x2029 || u == 0x202F || u == 0x205F || u == 0x3000
}

/// Whether a character is white space in the sense of Unicode.
pub fn white(c: char) -> (r: bool)
    ensures
        r == is_white(c),
{
    let u: u32 = c as u32;
    (0x09 <= u && u <= 0x0D) || u == 0x20 || u == 0x85 || u == 0xA0 || u == 0x1680 || (0x2000 <= u
        && u <= 0x200A) || u == 0x2028 || u == 0x2029 || u == 0x202F || u == 0x205F || u == 0x3000
}

/// A text without its leading white space.
pub open spec fn without_lead(s: Seq<char>) -> Seq<char>
    decreases s.len(),
{
    if s.len() > 0 && is_white(s[0]) {
        without_lead(s.drop_first())
    } else {
        s
    }
}

/// A text without its trailing white space.
pub open spec fn without_trail(s: Seq<char>) -> Seq<char>
    decreases s.len(),
{
    if s.len() > 0 && is_white(s.last()) {
        without_trail(s.drop_last())
    } else {
        s
    }
}

/// A text without the white space around it.
pub open spec fn trimmed(s: Seq<char>) -> Seq<char> {
    without_trail(without_lead(s))
}

/// A text without the white space around it.
pub fn trim(s: &[char]) -> (r: &[char])
    ensures
        r@ == trimmed(s@),
{
    let mut a: usize = 0;
    assert(s@.skip(0) =~= s@);
    while a < s.len() && white(s[a])
        invariant
            a <= s.len(),
            without_lead(s@) == without_lead(s@.skip(a as int)),
        decreases s.len() - a,
    {
        assert(s@.skip(a as int).drop_first() =~= s@.skip(a + 1));
        a += 1;
    }
    let mut b: usize = s.len();
    let ghost core = s@.skip(a as int);
    assert(s@.subrange(a as int, b as int) =~= core);
    while b > a && white(s[b - 1])
        invariant
            a <= b <= s.len(),
            without_trail(core) == without_trail(s@.subrange(a as int, b as int)),
        decreases b,
    {
        assert(s@.subrange(a as int, b as int).drop_last() =~= s@.subrange(a as int, b - 1));
        b -= 1;
    }
    vstd::slice::slice_subrange(s, a, b)
}

/// The numerical value of a hexadecimal digit.
pub open spec fn hex_digit_value(c: char) -> Option<u8> {
    if '0' <= c && c <= '9' {
        Some((c as u32 - 0x30) as u8)
    } else if 'a' <= c && c <= 'f' {
        Some((c as u32 - 0x57) as u8)
    } else if 'A' <= c && c <= 'F' {
        Some((c as u32 - 0x37) as u8)
    } else {
        None
    }
}

/// The numerical value of a hexadecimal digit.
pub fn hex_value(c: char) -> (r: Option<u8>)
    ensures
        r == hex_digit_value(c),
        r matches Some(v) ==> v < 16,
{
    if '0' <= c && c <= '9' {
        Some(c as u8 - 0x30)
    } else if 'a' <= c && c <= 'f' {
        Some(c as u8 - 0x57)
    } else if 'A' <= c && c <= 'F' {
        Some(c as u8 - 0x37)
    } else {
        None
    }
}

} // verus!
