//! The Bluetooth side: finding lights among what a scan has seen, choosing an
//! adapter, talking to a light's characteristics, and judging the session itself.

pub mod gatt;
pub mod health;

use vstd::prelude::*;
use vstd::string::*;
use crate::ble::gatt::{gatt_uuids, neewer_uuids};
use crate::clock::Nanos;
use crate::parse::{parse_unsigned, unsigned_upto};
use crate::text::{
    ascii_only, chars_of, contains, has_part, has_prefix, is_white, lower, same_text, starts_with,
    string_of, to_unicode_lower, unicode_lower, views, white,
};

verus! {

/// Whether a name, in lower case, looks like a Neewer light's.
pub open spec fn neewer_like(lowered: Seq<char>) -> bool {
    ||| has_part(lowered, "nwr"@)
    ||| has_part(lowered, "neewer"@)
    ||| has_part(lowered, "nee"@)
    ||| has_prefix(lowered, "nw-"@)
    ||| has_prefix(lowered, "nh-"@)
    ||| has_prefix(lowered, "sl"@)
}

/// Whether a name looks like a Neewer light's, given in lower case.
pub fn is_neewer_lowered(lowered: &str) -> (r: bool)
    ensures
        r == neewer_like(lowered@),
{
    let n = chars_of(lowered);
    let nwr = chars_of("nwr");
    let neewer = chars_of("neewer");
    let nee = chars_of("nee");
    contains(&n, &nwr) || contains(&n, &neewer) || contains(&n, &nee) || starts_with(&n, "nw-")
        || starts_with(&n, "nh-") || starts_with(&n, "sl")
}

/// Whether an advertised name looks like a Neewer light's. Deliberately broad: a
/// light is bound by its MAC, never by its name.
pub fn is_neewer_name(name: &str) -> (r: bool)
    ensures
        r == neewer_like(unicode_lower(name@)),
        ascii_only(name@) ==> r == neewer_like(lower(name@)),
{
    let lowered = to_unicode_lower(name);
    is_neewer_lowered(lowered.as_str())
}

/// Whether an address is the one that is looked for: every byte counts.
pub fn addr_matches(address: [u8; 6], target: [u8; 6]) -> (r: bool)
    ensures
        r == (address@ == target@),
{
    let mut i: usize = 0;
    while i < 6
        invariant
            i <= 6,
            forall|k: int| 0 <= k < i ==> address@[k] == target@[k],
        decreases 6 - i,
    {
        if address[i] != target[i] {
            assert(address@[i as int] != target@[i as int]);
            return false;
        }
        i += 1;
    }
    assert(address@ =~= target@);
    true
}

/// The first of the addresses that is the one looked for.
pub open spec fn first_match(addresses: Seq<[u8; 6]>, target: [u8; 6], r: Option<usize>) -> bool {
    match r {
        Some(i) => i < addresses.len() && addresses[i as int]@ == target@ && forall|k: int|
            0 <= k < i ==> (#[trigger] addresses[k])@ != target@,
        None => forall|k: int| 0 <= k < addresses.len() ==> (#[trigger] addresses[k])@ != target@,
    }
}

/// Look for an address among the devices that a scan has discovered.
pub fn find_scanned(addresses: &[[u8; 6]], target: [u8; 6]) -> (r: Option<usize>)
    ensures
        first_match(addresses@, target, r),
{
    let mut i: usize = 0;
    while i < addresses.len()
        invariant
            i <= addresses@.len(),
            forall|k: int| 0 <= k < i ==> (#[trigger] addresses@[k])@ != target@,
        decreases addresses@.len() - i,
    {
        if addr_matches(addresses[i], target) {
            return Some(i);
        }
        i += 1;
    }
    None
}

/// What a search for one light does next.
#[derive(Debug, Clone, Copy, PartialEq, Eq, Structural)]
pub enum FindStep {
    /// Stop the scan: the light is the device at this position.
    Found(usize),
    /// Stop the scan: the light did not show up in time.
    GiveUp,
    /// Look again after [`FIND_RETRY_MS`].
    Wait,
}

/// Pause between two looks at what a scan has discovered.
pub const FIND_RETRY_MS: u64 = 400;

/// One look of a search that has run for `waited`. A light that shows up on the last
/// look still counts.
pub fn find_by_mac(
    addresses: &[[u8; 6]],
    target: [u8; 6],
    waited: Nanos,
    timeout: Nanos,
) -> (r: FindStep)
    ensures
        match r {
            FindStep::Found(i) => first_match(addresses@, target, Some(i)),
            FindStep::GiveUp => first_match(addresses@, target, None) && waited >= timeout,
            FindStep::Wait => first_match(addresses@, target, None) && waited < timeout,
        },
{
    match find_scanned(addresses, target) {
        Some(i) => FindStep::Found(i),
        None => if waited >= timeout {
            FindStep::GiveUp
        } else {
            FindStep::Wait
        },
    }
}

/// The characters of a text before its first white space.
pub open spec fn first_word(s: Seq<char>) -> Seq<char>
    decreases s.len(),
{
    if s.len() == 0 || is_white(s[0]) {
        Seq::empty()
    } else {
        seq![s[0]] + first_word(s.skip(1))
    }
}

/// The first run of characters of a text without white space; empty if there is none.
pub open spec fn first_token(s: Seq<char>) -> Seq<char>
    decreases s.len(),
{
    if s.len() > 0 && is_white(s[0]) {
        first_token(s.skip(1))
    } else {
        first_word(s)
    }
}

proof fn lemma_first_word(s: Seq<char>, n: int)
    requires
        0 <= n <= s.len(),
        forall|k: int| 0 <= k < n ==> !is_white(#[trigger] s[k]),
        n < s.len() ==> is_white(s[n]),
    ensures
        first_word(s) == s.take(n),
    decreases s.len(),
{
    if n > 0 {
        let rest = s.skip(1);
        assert forall|k: int| 0 <= k < n - 1 implies !is_white(#[trigger] rest[k]) by {
            assert(rest[k] == s[k + 1]);
        }
        lemma_first_word(rest, n - 1);
        assert(seq![s[0]] + rest.take(n - 1) =~= s.take(n));
    } else {
        assert(s.take(0) =~= Seq::empty());
    }
}

/// The platform's own id for an adapter, such as `hci0`, out of its info text
/// (`hci0 (usb:v1D6Bp0246d0552)`).
pub fn adapter_id_from_info(info: &str) -> (r: String)
    ensures
        r@ == first_token(info@),
{
    let chars = chars_of(info);
    let mut from: usize = 0;
    assert(chars@.skip(0) == chars@);
    while from < chars.len() && white(chars[from])
        invariant
            from <= chars@.len(),
            first_token(chars@.skip(from as int)) == first_token(chars@),
        decreases chars@.len() - from,
    {
        assert(chars@.skip(from as int).skip(1) == chars@.skip(from + 1));
        from += 1;
    }
    let mut to: usize = from;
    while to < chars.len() && !white(chars[to])
        invariant
            from <= to <= chars@.len(),
            forall|k: int| from <= k < to ==> !is_white(#[trigger] chars@[k]),
        decreases chars@.len() - to,
    {
        to += 1;
    }
    proof {
        let rest = chars@.skip(from as int);
        let n = to - from;
        assert forall|k: int| 0 <= k < n implies !is_white(#[trigger] rest[k]) by {
            assert(rest[k] == chars@[from + k]);
        }
        lemma_first_word(rest, n);
        assert(rest.take(n) == chars@.subrange(from as int, to as int));
    }
    string_of(vstd::slice::slice_subrange(&chars, from, to))
}

/// Why an adapter was chosen.
#[derive(Debug, Clone, Copy, PartialEq, Eq, Structural)]
pub enum AdapterChoice {
    /// The selector is `default`: the first adapter.
    Default,
    /// The selector is a number: the adapter at that position.
    Index(usize),
    /// The selector stands in an adapter's info text: the first such adapter.
    Name(usize),
    /// The selector is a number with no adapter: the first adapter, with a warning.
    IndexOutOfRange,
    /// The selector stands nowhere: the first adapter, with a warning.
    NoMatch,
}

/// There is no Bluetooth adapter.
#[derive(Debug, Clone, Copy, PartialEq, Eq, Structural)]
pub struct NoAdapter;

impl AdapterChoice {
    /// The position of the chosen adapter.
    pub open spec fn position(self) -> usize {
        match self {
            AdapterChoice::Index(i) => i,
            AdapterChoice::Name(i) => i,
            _ => 0,
        }
    }

    /// The position of the chosen adapter.
    pub fn index(self) -> (r: usize)
        ensures
            r == self.position(),
    {
        match self {
            AdapterChoice::Index(i) => i,
            AdapterChoice::Name(i) => i,
            _ => 0,
        }
    }
}

/// What a selector chooses among adapters, given the selector and the adapters' info
/// texts in lower case.
pub open spec fn chosen(
    selector: Seq<char>,
    needle: Seq<char>,
    infos: Seq<Seq<char>>,
    r: Result<AdapterChoice, NoAdapter>,
) -> bool {
    let number = unsigned_upto(selector, usize::MAX as u64);
    match r {
        Err(_) => infos.len() == 0,
        Ok(choice) => infos.len() > 0 && match choice {
            AdapterChoice::Default => selector == "default"@,
            AdapterChoice::Index(i) => {
                &&& selector != "default"@
                &&& number == Some(i as u64)
                &&& i < infos.len()
            },
            AdapterChoice::IndexOutOfRange => {
                &&& selector != "default"@
                &&& number is Some
                &&& number->0 >= infos.len()
            },
            AdapterChoice::Name(i) => {
                &&& selector != "default"@
                &&& number is None
                &&& i < infos.len()
                &&& has_part(infos[i as int], needle)
                &&& forall|k: int| 0 <= k < i ==> !has_part(#[trigger] infos[k], needle)
            },
            AdapterChoice::NoMatch => {
                &&& selector != "default"@
                &&& number is None
                &&& forall|k: int|
                    0 <= k < infos.len() ==> !has_part(#[trigger] infos[k], needle)
            },
        },
    }
}

/// Choose an adapter, given the selector, and both it and the adapters' info texts in
/// lower case.
pub fn select_lowered(selector: &str, needle: &str, infos: &[String]) -> (r: Result<
    AdapterChoice,
    NoAdapter,
>)
    ensures
        chosen(selector@, needle@, views(infos@), r),
{
    if infos.len() == 0 {
        return Err(NoAdapter);
    }
    if same_text(selector, "default") {
        return Ok(AdapterChoice::Default);
    }
    let text = chars_of(selector);
    match parse_unsigned(&text, usize::MAX as u64) {
        Some(n) => {
            if n < infos.len() as u64 {
                Ok(AdapterChoice::Index(n as usize))
            } else {
                Ok(AdapterChoice::IndexOutOfRange)
            }
        },
        None => {
            let part = chars_of(needle);
            let mut i: usize = 0;
            while i < infos.len()
                invariant
                    i <= infos@.len(),
                    part@ == needle@,
                    infos@.len() > 0,
                    selector@ != "default"@,
                    unsigned_upto(selector@, usize::MAX as u64) is None,
                    forall|k: int| 0 <= k < i ==> !has_part(#[trigger] views(infos@)[k], needle@),
                decreases infos@.len() - i,
            {
                let info = chars_of(infos[i].as_str());
                if contains(&info, &part) {
                    return Ok(AdapterChoice::Name(i));
                }
                i += 1;
            }
            Ok(AdapterChoice::NoMatch)
        },
    }
}

/// The lower-case forms of texts.
pub open spec fn lowered(texts: Seq<String>) -> Seq<Seq<char>> {
    Seq::new(texts.len(), |i: int| unicode_lower(texts[i]@))
}

/// Choose an adapter by selector: `default` is the first one, a number is a position,
/// any other text is looked for in the info texts without regard to case. Where
/// nothing fits, the first adapter is taken.
pub fn select_adapter(selector: &str, infos: &[String]) -> (r: Result<AdapterChoice, NoAdapter>)
    ensures
        chosen(selector@, unicode_lower(selector@), lowered(infos@), r),
        (ascii_only(selector@) && forall|k: int|
            0 <= k < infos@.len() ==> ascii_only((#[trigger] infos@[k])@)) ==> chosen(
            selector@,
            lower(selector@),
            Seq::new(infos@.len(), |k: int| lower(infos@[k]@)),
            r,
        ),
{
    let needle = to_unicode_lower(selector);
    let mut texts: Vec<String> = Vec::new();
    let mut i: usize = 0;
    while i < infos.len()
        invariant
            i <= infos@.len(),
            texts@.len() == i,
            forall|k: int| 0 <= k < i ==> (#[trigger] texts@[k])@ == unicode_lower(infos@[k]@),
            forall|k: int|
                0 <= k < i && ascii_only(infos@[k]@) ==> (#[trigger] texts@[k])@ == lower(
                    infos@[k]@,
                ),
        decreases infos@.len() - i,
    {
        texts.push(to_unicode_lower(infos[i].as_str()));
        i += 1;
    }
    assert(views(texts@) == lowered(infos@));
    proof {
        if forall|k: int| 0 <= k < infos@.len() ==> ascii_only((#[trigger] infos@[k])@) {
            assert(views(texts@) =~= Seq::new(infos@.len(), |k: int| lower(infos@[k]@)));
        }
    }
    select_lowered(selector, needle.as_str(), &texts)
}

/// An advertisement that a scan has seen.
#[derive(Debug, Clone)]
pub struct Advert {
    pub name: String,
    pub address: String,
    pub rssi: Option<i16>,
    /// The service UUIDs that it advertises.
    pub services: Vec<u128>,
}

/// A discovered device.
#[derive(Debug, Clone)]
pub struct Found {
    pub name: String,
    pub address: String,
    pub rssi: Option<i16>,
    pub is_neewer: bool,
    /// Its position among the advertisements.
    pub peripheral: usize,
}

/// Signal strength for ordering: an unknown one is the weakest.
pub open spec fn strength(rssi: Option<i16>) -> i16 {
    match rssi {
        Some(v) => v,
        None => i16::MIN,
    }
}

/// Whether a device is listed before another: by signal strength, then as they were
/// seen.
pub open spec fn listed_before(a: Found, b: Found) -> bool {
    strength(a.rssi) > strength(b.rssi) || (strength(a.rssi) == strength(b.rssi) && a.peripheral
        < b.peripheral)
}

/// Whether an advertisement is a Neewer light's: by the service that it advertises,
/// else by its name.
pub open spec fn advertises_neewer(a: Advert) -> bool {
    a.services@.contains(neewer_uuids().service) || neewer_like(unicode_lower(a.name@))
}

/// Whether an advertisement with an ASCII name is a Neewer light's.
pub open spec fn ascii_advertises_neewer(a: Advert) -> bool {
    a.services@.contains(neewer_uuids().service) || neewer_like(lower(a.name@))
}

/// Whether a device is what an advertisement shows.
pub open spec fn seen_as(f: Found, adverts: Seq<Advert>) -> bool {
    &&& f.peripheral < adverts.len()
    &&& f.name@ == adverts[f.peripheral as int].name@
    &&& f.address@ == adverts[f.peripheral as int].address@
    &&& f.rssi == adverts[f.peripheral as int].rssi
    &&& f.is_neewer == advertises_neewer(adverts[f.peripheral as int])
    &&& ascii_only(f.name@) ==> f.is_neewer == ascii_advertises_neewer(
        adverts[f.peripheral as int],
    )
}

/// Whether a list holds the device of an advertisement.
pub open spec fn lists(list: Seq<Found>, peripheral: int) -> bool {
    exists|i: int| 0 <= i < list.len() && (#[trigger] list[i]).peripheral == peripheral
}

/// Whether a list holds the device of each advertisement once, in order.
pub open spec fn listing(list: Seq<Found>, adverts: Seq<Advert>) -> bool {
    &&& list.len() == adverts.len()
    &&& forall|k: int| 0 <= k < adverts.len() ==> #[trigger] lists(list, k)
    &&& forall|i: int| 0 <= i < list.len() ==> seen_as(#[trigger] list[i], adverts)
    &&& forall|i: int, j: int|
        0 <= i < j < list.len() ==> listed_before(#[trigger] list[i], #[trigger] list[j])
}

fn has_service(services: &[u128], service: u128) -> (r: bool)
    ensures
        r == services@.contains(service),
{
    let mut i: usize = 0;
    while i < services.len()
        invariant
            i <= services@.len(),
            forall|k: int| 0 <= k < i ==> services@[k] != service,
        decreases services@.len() - i,
    {
        if services[i] == service {
            assert(services@[i as int] == service);
            return true;
        }
        i += 1;
    }
    false
}

fn strength_of(rssi: Option<i16>) -> (r: i16)
    ensures
        r == strength(rssi),
{
    match rssi {
        Some(v) => v,
        None => i16::MIN,
    }
}

/// Everything that a scan has seen, the strongest signal first; devices of equal
/// strength keep the order in which they were seen.
pub fn scan(adverts: &[Advert]) -> (r: Vec<Found>)
    ensures
        listing(r@, adverts@),
{
    let ids = gatt_uuids();
    let mut out: Vec<Found> = Vec::new();
    let mut n: usize = 0;
    while n < adverts.len()
        invariant
            n <= adverts@.len(),
            ids == neewer_uuids(),
            out@.len() == n,
            forall|i: int| 0 <= i < n ==> seen_as(#[trigger] out@[i], adverts@),
            forall|i: int| 0 <= i < n ==> (#[trigger] out@[i]).peripheral < n,
            forall|k: int| 0 <= k < n ==> #[trigger] lists(out@, k),
            forall|i: int, j: int|
                0 <= i < j < n ==> listed_before(#[trigger] out@[i], #[trigger] out@[j]),
        decreases adverts@.len() - n,
    {
        let a = &adverts[n];
        let found = Found {
            name: string_of(&chars_of(a.name.as_str())),
            address: string_of(&chars_of(a.address.as_str())),
            rssi: a.rssi,
            is_neewer: has_service(&a.services, ids.service) || is_neewer_name(a.name.as_str()),
            peripheral: n,
        };
        let s: i16 = strength_of(a.rssi);
        let mut at: usize = n;
        while at > 0 && strength_of(out[at - 1].rssi) < s
            invariant
                at <= n,
                out@.len() == n,
                s == strength(found.rssi),
                forall|i: int| at <= i < n ==> strength((#[trigger] out@[i]).rssi) < s,
            decreases at,
        {
            at -= 1;
        }
        let ghost before = out@;
        let ghost new = found;
        out.insert(at, found);
        proof {
            assert(out@ == before.insert(at as int, new));
            assert forall|k: int| 0 <= k < n + 1 implies #[trigger] lists(out@, k) by {
                if k == n {
                    assert(out@[at as int].peripheral == k);
                } else {
                    assert(lists(before, k));
                    let i = choose|i: int| 0 <= i < n && (#[trigger] before[i]).peripheral == k;
                    let j = if i < at { i } else { i + 1 };
                    assert(out@[j] == before[i]);
                }
            }
            assert forall|i: int, j: int| 0 <= i < j < n + 1 implies listed_before(
                #[trigger] out@[i],
                #[trigger] out@[j],
            ) by {
                let oi = if i < at { i } else { i - 1 };
                let oj = if j < at { j } else { j - 1 };
                if i != at && j != at {
                    assert(out@[i] == before[oi] && out@[j] == before[oj]);
                } else if i == at {
                    assert(out@[j] == before[oj]);
                } else {
                    assert(out@[i] == before[oi]);
                    if at > 0 && i < at - 1 {
                        assert(listed_before(before[i], before[at - 1]));
                    }
                }
            }
        }
        n += 1;
    }
    out
}

/// Names that look like a Neewer light's: `nwr`, `neewer` or `nee` anywhere, or `nw-`,
/// `nh-` or `sl` at the beginning; and no others.
pub proof fn law_neewer_names(s: Seq<char>, before: Seq<char>, after: Seq<char>)
    ensures
        neewer_like(before + "nwr"@ + after),
        neewer_like(before + "neewer"@ + after),
        neewer_like(before + "nee"@ + after),
        neewer_like("nw-"@ + after),
        neewer_like("nh-"@ + after),
        neewer_like("sl"@ + after),
        neewer_like(s) ==> (exists|a: Seq<char>, b: Seq<char>|
            s == #[trigger] (a + "nwr"@ + b) || s == a + "nee"@ + b) || (s.len() >= 3 && s[0] == 'n'
            && (s[1] == 'w' || s[1] == 'h') && s[2] == '-') || (s.len() >= 2 && s[0] == 's' && s[1]
            == 'l'),
{
    reveal_strlit("nwr");
    reveal_strlit("neewer");
    reveal_strlit("nee");
    reveal_strlit("nw-");
    reveal_strlit("nh-");
    reveal_strlit("sl");
    crate::text::laws::law_parts(before, "nwr"@, after, s);
    crate::text::laws::law_parts(before, "neewer"@, after, s);
    crate::text::laws::law_parts(before, "nee"@, after, s);
    crate::text::laws::law_prefixes("nw-"@, after, s, 0);
    crate::text::laws::law_prefixes("nh-"@, after, s, 0);
    crate::text::laws::law_prefixes("sl"@, after, s, 0);
    crate::text::laws::law_prefixes("nw-"@, after, s, 1);
    crate::text::laws::law_prefixes("nh-"@, after, s, 1);
    crate::text::laws::law_prefixes("sl"@, after, s, 1);
    crate::text::laws::law_prefixes("nw-"@, after, s, 2);
    crate::text::laws::law_prefixes("nh-"@, after, s, 2);
    if has_part(s, "nwr"@) {
        let (a, b) = choose|a: Seq<char>, b: Seq<char>| s == #[trigger] (a + "nwr"@ + b);
        assert(s == a + "nwr"@ + b);
    } else if has_part(s, "nee"@) {
        let (a, b) = choose|a: Seq<char>, b: Seq<char>| s == #[trigger] (a + "nee"@ + b);
        let witness = a + "nwr"@ + b;
        assert(s == a + "nee"@ + b);
    } else if has_part(s, "neewer"@) {
        let (a, b) = choose|a: Seq<char>, b: Seq<char>| s == #[trigger] (a + "neewer"@ + b);
        let c = seq!['w', 'e', 'r'] + b;
        assert(s =~= a + "nee"@ + c);
        crate::text::laws::law_parts(a, "nee"@, c, s);
    }
}

/// The first word of a text: white space in front of it is passed over, and it goes up to
/// the next white space.
pub proof fn law_first_tokens(lead: Seq<char>, word: Seq<char>, rest: Seq<char>)
    requires
        forall|i: int| 0 <= i < lead.len() ==> is_white(#[trigger] lead[i]),
        forall|i: int| 0 <= i < word.len() ==> !is_white(#[trigger] word[i]),
        word.len() > 0,
        rest.len() > 0 ==> is_white(rest[0]),
    ensures
        first_token(lead + word + rest) == word,
    decreases lead.len(),
{
    let s = lead + word + rest;
    if lead.len() == 0 {
        assert(s =~= word + rest);
        lemma_first_word(s, word.len() as int);
        assert(s.take(word.len() as int) =~= word);
        assert(s[0] == word[0]);
    } else {
        assert(s[0] == lead[0]);
        assert(s.skip(1) =~= lead.skip(1) + word + rest);
        law_first_tokens(lead.skip(1), word, rest);
    }
}

/// What a selector chooses is settled: `default` the first adapter, a number the adapter
/// at that position, the first one where there is none; any other text the first adapter
/// that holds it, and the first one where none does. Nothing is chosen only where there
/// is nothing.
pub proof fn law_adapter_choice(
    selector: Seq<char>,
    needle: Seq<char>,
    infos: Seq<Seq<char>>,
    r: Result<AdapterChoice, NoAdapter>,
    other: Result<AdapterChoice, NoAdapter>,
)
    requires
        chosen(selector, needle, infos, r),
        infos.len() <= usize::MAX,
    ensures
        chosen(selector, needle, infos, other) ==> r == other,
        r is Err <==> infos.len() == 0,
        r matches Ok(c) ==> c.position() < infos.len(),
        selector == "default"@ && r is Ok ==> r->Ok_0.position() == 0,
        selector != "default"@ && unsigned_upto(selector, usize::MAX as u64) is Some && r is Ok ==> {
            let n = unsigned_upto(selector, usize::MAX as u64)->0;
            r->Ok_0.position() == if n < infos.len() {
                n
            } else {
                0
            }
        },
        selector != "default"@ && unsigned_upto(selector, usize::MAX as u64) is None && r is Ok ==> {
            let p = r->Ok_0.position() as int;
            ||| has_part(infos[p], needle) && forall|k: int|
                0 <= k < p ==> !has_part(#[trigger] infos[k], needle)
            ||| p == 0 && forall|k: int|
                0 <= k < infos.len() ==> !has_part(#[trigger] infos[k], needle)
        },
{
    if chosen(selector, needle, infos, other) && r is Ok && other is Ok {
        if let (Ok(AdapterChoice::Name(i)), Ok(AdapterChoice::Name(j))) = (r, other) {
            if i < j {
                assert(!has_part(infos[i as int], needle));
            } else if j < i {
                assert(!has_part(infos[j as int], needle));
            }
        }
        if let (Ok(AdapterChoice::Name(i)), Ok(AdapterChoice::NoMatch)) = (r, other) {
            assert(!has_part(infos[i as int], needle));
        }
        if let (Ok(AdapterChoice::NoMatch), Ok(AdapterChoice::Name(i))) = (r, other) {
            assert(!has_part(infos[i as int], needle));
        }
        assert(r->Ok_0 == other->Ok_0);
    }
    if chosen(selector, needle, infos, other) && r is Err {
        assert(r->Err_0 == other->Err_0);
    }
}

/// A listing goes from the strongest signal to the weakest, those without one last; of
/// two as strong, the one seen first stands first. Each device is listed as it was seen.
pub proof fn law_listings_go_by_strength(list: Seq<Found>, adverts: Seq<Advert>, i: int, j: int)
    requires
        listing(list, adverts),
        0 <= i < j < list.len(),
    ensures
        list[i].rssi is Some && list[j].rssi is Some ==> list[i].rssi->0 >= list[j].rssi->0,
        list[i].rssi is None && list[j].rssi is Some ==> list[j].rssi->0 == -32768,
        list[i].rssi == list[j].rssi ==> list[i].peripheral < list[j].peripheral,
        list[i].peripheral < adverts.len(),
        list[i].name@ == adverts[list[i].peripheral as int].name@,
        list[i].address@ == adverts[list[i].peripheral as int].address@,
        list[i].rssi == adverts[list[i].peripheral as int].rssi,
{
    assert(listed_before(list[i], list[j]));
    assert(seen_as(list[i], adverts));
}

/// A device is a Neewer light's where it advertises their service or has such a name.
pub proof fn law_neewer_adverts(a: Advert, k: int)
    ensures
        0 <= k < a.services@.len() && a.services@[k] == 0x69400001_b5a3_f393_e0a9_e50e24dcca99
            ==> advertises_neewer(a) && ascii_advertises_neewer(a),
        neewer_like(lower(a.name@)) ==> ascii_advertises_neewer(a),
        neewer_like(unicode_lower(a.name@)) ==> advertises_neewer(a),
        ascii_advertises_neewer(a) ==> neewer_like(lower(a.name@)) || a.services@.contains(
            0x69400001_b5a3_f393_e0a9_e50e24dcca99,
        ),
        advertises_neewer(a) ==> neewer_like(unicode_lower(a.name@)) || a.services@.contains(
            0x69400001_b5a3_f393_e0a9_e50e24dcca99,
        ),
{
}

/// What is found is the first with the address looked for, and nothing is found only
/// where none has it.
pub proof fn law_the_first_match(
    addresses: Seq<[u8; 6]>,
    target: [u8; 6],
    r: Option<usize>,
    k: int,
)
    requires
        first_match(addresses, target, r),
        0 <= k < addresses.len(),
        addresses[k]@ == target@,
    ensures
        r is Some,
        r->0 <= k,
        addresses[r->0 as int]@ == target@,
{
}

/// Every device that was seen is listed, and listed once.
pub proof fn law_every_device_is_listed_once(list: Seq<Found>, adverts: Seq<Advert>, k: int)
    requires
        listing(list, adverts),
        0 <= k < adverts.len(),
    ensures
        list.len() == adverts.len(),
        exists|i: int| 0 <= i < list.len() && (#[trigger] list[i]).peripheral == k,
        forall|i: int, j: int|
            0 <= i < j < list.len() ==> (#[trigger] list[i]).peripheral != (
            #[trigger] list[j]).peripheral || (list[i].rssi != list[j].rssi),
        forall|i: int| 0 <= i < list.len() ==> (#[trigger] list[i]).peripheral < adverts.len(),
{
    assert(lists(list, k));
    assert forall|i: int, j: int| 0 <= i < j < list.len() implies (#[trigger] list[i]).peripheral != (
    #[trigger] list[j]).peripheral || (list[i].rssi != list[j].rssi) by {
        assert(listed_before(list[i], list[j]));
    }
    assert forall|i: int| 0 <= i < list.len() implies (#[trigger] list[i]).peripheral
        < adverts.len() by {
        assert(seen_as(list[i], adverts));
    }
}

} // verus!
