//! What the listing commands print: the lights that a scan found, the model catalog and
//! the configured lights.

use vstd::prelude::*;
use vstd::string::*;
use crate::artnet::split_port_address;
use crate::ble::Found;
use crate::commands::add::model_profile;
use crate::config::{bool_text, mac_eq, same_mac, unescaped, LightCfg};
use crate::models::Model;
use crate::profile::Profile;
use crate::text::{
    chars_of, column, dec, int_dec, joined, push_column, push_dec, push_int_dec, push_joined,
    push_right_column, right_column, views,
};

pub mod laws;

verus! {

broadcast use vstd::string::group_string_axioms;

/// Whether an address is that of a configured light.
pub open spec fn configured(lights: Seq<LightCfg>, address: Seq<char>) -> bool {
    exists|i: int| 0 <= i < lights.len() && same_mac(#[trigger] lights[i].mac@, address)
}

/// Whether an address is that of a configured light.
pub fn is_configured(lights: &[LightCfg], address: &str) -> (r: bool)
    ensures
        r == configured(lights@, address@),
{
    let mut i: usize = 0;
    while i < lights.len()
        invariant
            i <= lights@.len(),
            forall|k: int| 0 <= k < i ==> !same_mac(#[trigger] lights@[k].mac@, address@),
        decreases lights@.len() - i,
    {
        if mac_eq(lights[i].mac.as_str(), address) {
            assert(same_mac(lights@[i as int].mac@, address@));
            return true;
        }
        i += 1;
    }
    false
}

/// Whether a scan shows a device: all of them where asked, else the Neewer lights that
/// are not configured yet.
pub open spec fn shows(f: Found, lights: Seq<LightCfg>, all: bool) -> bool {
    all || (f.is_neewer && !configured(lights, f.address@))
}

/// Whether a scan hides a device because it is configured.
pub open spec fn hides(f: Found, lights: Seq<LightCfg>, all: bool) -> bool {
    !all && f.is_neewer && configured(lights, f.address@)
}

/// The positions that a scan shows, in order.
pub open spec fn shown(found: Seq<Found>, lights: Seq<LightCfg>, all: bool) -> Seq<usize>
    decreases found.len(),
{
    if found.len() == 0 {
        Seq::empty()
    } else {
        let before = shown(found.drop_last(), lights, all);
        if shows(found.last(), lights, all) {
            before.push((found.len() - 1) as usize)
        } else {
            before
        }
    }
}

/// How many configured lights a scan hides.
pub open spec fn hidden(found: Seq<Found>, lights: Seq<LightCfg>, all: bool) -> nat
    decreases found.len(),
{
    if found.len() == 0 {
        0
    } else {
        hidden(found.drop_last(), lights, all) + if hides(found.last(), lights, all) {
            1nat
        } else {
            0
        }
    }
}

/// Which devices a scan shows, and how many configured lights it hides.
pub fn scan(found: &[Found], lights: &[LightCfg], all: bool) -> (r: (Vec<usize>, usize))
    ensures
        r.0@ == shown(found@, lights@, all),
        r.1 == hidden(found@, lights@, all),
        forall|i: int| 0 <= i < r.0@.len() ==> (#[trigger] r.0@[i]) < found@.len(),
{
    let mut list: Vec<usize> = Vec::new();
    let mut count: usize = 0;
    let mut i: usize = 0;
    while i < found.len()
        invariant
            i <= found@.len(),
            count <= i,
            list@ == shown(found@.take(i as int), lights@, all),
            count == hidden(found@.take(i as int), lights@, all),
            forall|k: int| 0 <= k < list@.len() ==> (#[trigger] list@[k]) < i,
        decreases found@.len() - i,
    {
        proof {
            assert(found@.take(i + 1).drop_last() == found@.take(i as int));
            assert(found@.take(i + 1).last() == found@[i as int]);
        }
        let f = &found[i];
        if all {
            list.push(i);
        } else if f.is_neewer {
            if is_configured(lights, f.address.as_str()) {
                count += 1;
            } else {
                list.push(i);
            }
        }
        i += 1;
    }
    assert(found@.take(i as int) == found@);
    (list, count)
}

/// Where everything is asked for, every device is shown and none is hidden.
pub proof fn law_all_hides_nothing(found: Seq<Found>, lights: Seq<LightCfg>)
    requires
        found.len() <= usize::MAX,
    ensures
        shown(found, lights, true) == Seq::new(found.len(), |i: int| i as usize),
        hidden(found, lights, true) == 0,
    decreases found.len(),
{
    if found.len() > 0 {
        law_all_hides_nothing(found.drop_last(), lights);
    }
    assert(shown(found, lights, true) =~= Seq::new(found.len(), |i: int| i as usize));
}

/// How many of the devices are Neewer lights.
pub open spec fn neewer_count(found: Seq<Found>) -> nat
    decreases found.len(),
{
    if found.len() == 0 {
        0
    } else {
        neewer_count(found.drop_last()) + if found.last().is_neewer {
            1nat
        } else {
            0
        }
    }
}

/// A scan shows exactly the devices that it is to show, each once, in the order in which
/// they were found.
pub proof fn law_scan_shows_what_it_should(found: Seq<Found>, lights: Seq<LightCfg>, all: bool)
    requires
        found.len() <= usize::MAX,
    ensures
        forall|i: int|
            0 <= i < found.len() ==> (shown(found, lights, all).contains(i as usize)
                <==> #[trigger] shows(found[i], lights, all)),
        forall|a: int, b: int|
            0 <= a < b < shown(found, lights, all).len() ==> (#[trigger] shown(
                found,
                lights,
                all,
            )[a]) < (#[trigger] shown(found, lights, all)[b]) < found.len(),
    decreases found.len(),
{
    if found.len() > 0 {
        let init = found.drop_last();
        let last = found.len() - 1;
        law_scan_shows_what_it_should(init, lights, all);
        let before = shown(init, lights, all);
        let list = shown(found, lights, all);
        assert forall|k: int| 0 <= k < before.len() implies (#[trigger] before[k]) < last by {
            lemma_shown_in_range(init, lights, all, k);
        }
        assert forall|i: int| 0 <= i < found.len() implies (list.contains(i as usize)
            <==> #[trigger] shows(found[i], lights, all)) by {
            if i < last {
                assert(init[i] == found[i]);
                assert(before.contains(i as usize) <==> shows(init[i], lights, all));
                if before.contains(i as usize) {
                    let k = choose|k: int| 0 <= k < before.len() && before[k] == i as usize;
                    assert(list[k] == i as usize);
                }
                if list.contains(i as usize) {
                    let k = choose|k: int| 0 <= k < list.len() && list[k] == i as usize;
                    assert(k < before.len());
                    assert(before[k] == i as usize);
                }
            } else {
                if shows(found[i], lights, all) {
                    assert(list[list.len() - 1] == i as usize);
                } else if list.contains(i as usize) {
                    let k = choose|k: int| 0 <= k < list.len() && list[k] == i as usize;
                    assert(before[k] < last);
                }
            }
        }
    }
}

proof fn lemma_shown_in_range(found: Seq<Found>, lights: Seq<LightCfg>, all: bool, k: int)
    requires
        found.len() <= usize::MAX,
        0 <= k < shown(found, lights, all).len(),
    ensures
        shown(found, lights, all)[k] < found.len(),
    decreases found.len(),
{
    if found.len() > 0 && k < shown(found.drop_last(), lights, all).len() {
        lemma_shown_in_range(found.drop_last(), lights, all, k);
    }
}

/// No Neewer light goes missing: each one is shown or counted as hidden.
pub proof fn law_no_light_goes_missing(found: Seq<Found>, lights: Seq<LightCfg>)
    ensures
        shown(found, lights, false).len() + hidden(found, lights, false) == neewer_count(found),
    decreases found.len(),
{
    if found.len() > 0 {
        law_no_light_goes_missing(found.drop_last(), lights);
    }
}

/// How a character stands in a JSON string: quotes and backslashes are escaped, control
/// characters become blanks.
pub open spec fn json_char(c: char) -> Seq<char> {
    if c == '"' {
        seq!['\\', '"']
    } else if c == '\\' {
        seq!['\\', '\\']
    } else if (c as u32) < 0x20 {
        seq![' ']
    } else {
        seq![c]
    }
}

/// A text as the inside of a JSON string.
pub open spec fn json_text(s: Seq<char>) -> Seq<char>
    decreases s.len(),
{
    if s.len() == 0 {
        Seq::empty()
    } else {
        json_text(s.drop_last()) + json_char(s.last())
    }
}

/// Escape a text for a JSON string.
pub fn json_escape(s: &str) -> (r: String)
    ensures
        r@ == json_text(s@),
{
    let chars = chars_of(s);
    let mut out = String::new();
    let mut i: usize = 0;
    while i < chars.len()
        invariant
            chars@ == s@,
            i <= chars@.len(),
            out@ == json_text(s@.take(i as int)),
        decreases chars@.len() - i,
    {
        assert(s@.take(i + 1).drop_last() == s@.take(i as int));
        let c: char = chars[i];
        if c == '"' {
            out.append("\\\"");
            proof {
                reveal_strlit("\\\"");
            }
        } else if c == '\\' {
            out.append("\\\\");
            proof {
                reveal_strlit("\\\\");
            }
        } else if (c as u32) < 0x20 {
            out.push(' ');
        } else {
            out.push(c);
        }
        i += 1;
        assert(out@ =~= json_text(s@.take(i as int)));
    }
    assert(s@.take(i as int) == s@);
    out
}

/// A text with its control characters turned into blanks.
pub open spec fn without_controls(s: Seq<char>) -> Seq<char> {
    Seq::new(
        s.len(),
        |i: int|
            if (s[i] as u32) < 0x20 {
                ' '
            } else {
                s[i]
            },
    )
}

proof fn lemma_json_front(s: Seq<char>)
    requires
        s.len() > 0,
    ensures
        json_text(s) == json_char(s[0]) + json_text(s.skip(1)),
    decreases s.len(),
{
    if s.len() == 1 {
        assert(s.drop_last() =~= Seq::<char>::empty());
        assert(s.skip(1) =~= Seq::<char>::empty());
    } else {
        lemma_json_front(s.drop_last());
        assert(s.drop_last().skip(1) =~= s.skip(1).drop_last());
    }
    assert(json_text(s) =~= json_char(s[0]) + json_text(s.skip(1)));
}

/// Reading an escaped text gives the text back, control characters blanked: no name can
/// break the string that it stands in.
pub proof fn law_json_escape_reads_back(s: Seq<char>)
    ensures
        unescaped(json_text(s)) == Some(without_controls(s)),
    decreases s.len(),
{
    if s.len() == 0 {
        assert(without_controls(s) =~= Seq::<char>::empty());
    } else {
        lemma_json_front(s);
        law_json_escape_reads_back(s.skip(1));
        let rest = json_text(s.skip(1));
        let whole = json_char(s[0]) + rest;
        assert(without_controls(s) =~= seq![without_controls(s)[0]] + without_controls(s.skip(1)));
        if json_char(s[0]).len() == 2 {
            assert(whole.skip(2) =~= rest);
        } else {
            assert(whole.skip(1) =~= rest);
        }
    }
}

/// A signal strength as JSON.
pub open spec fn rssi_json(rssi: Option<i16>) -> Seq<char> {
    match rssi {
        Some(v) => int_dec(v as int),
        None => "null"@,
    }
}

/// A device as a JSON object.
pub open spec fn json_object(f: Found, lights: Seq<LightCfg>) -> Seq<char> {
    "{\"name\":\""@ + json_text(f.name@) + "\",\"mac\":\""@ + json_text(f.address@)
        + "\",\"rssi\":"@ + rssi_json(f.rssi) + ",\"neewer\":"@ + bool_text(f.is_neewer)
        + ",\"configured\":"@ + bool_text(configured(lights, f.address@)) + "}"@
}

fn append_bool(out: &mut String, b: bool)
    ensures
        final(out)@ == old(out)@ + bool_text(b),
{
    if b {
        out.append("true");
    } else {
        out.append("false");
    }
}

fn object(f: &Found, lights: &[LightCfg]) -> (r: String)
    ensures
        r@ == json_object(*f, lights@),
{
    let mut out = "{\"name\":\"".to_string();
    out.append(json_escape(f.name.as_str()).as_str());
    out.append("\",\"mac\":\"");
    out.append(json_escape(f.address.as_str()).as_str());
    out.append("\",\"rssi\":");
    match f.rssi {
        Some(v) => {
            push_int_dec(&mut out, v as i64);
        },
        None => {
            out.append("null");
        },
    }
    out.append(",\"neewer\":");
    append_bool(&mut out, f.is_neewer);
    out.append(",\"configured\":");
    append_bool(&mut out, is_configured(lights, f.address.as_str()));
    out.append("}");
    out
}

/// The objects of the devices at some positions.
pub open spec fn json_objects(
    found: Seq<Found>,
    lights: Seq<LightCfg>,
    list: Seq<usize>,
) -> Seq<Seq<char>> {
    Seq::new(list.len(), |i: int| json_object(found[list[i] as int], lights))
}

/// The devices at some positions as one JSON array.
pub fn scan_json(found: &[Found], lights: &[LightCfg], list: &[usize]) -> (r: String)
    requires
        forall|i: int| 0 <= i < list@.len() ==> (#[trigger] list@[i]) < found@.len(),
    ensures
        r@ == "["@ + joined(json_objects(found@, lights@, list@), ","@) + "]"@,
{
    let mut items: Vec<String> = Vec::new();
    let mut i: usize = 0;
    assert(views(items@) =~= json_objects(found@, lights@, list@.take(0)));
    while i < list.len()
        invariant
            i <= list@.len(),
            forall|k: int| 0 <= k < list@.len() ==> (#[trigger] list@[k]) < found@.len(),
            views(items@) == json_objects(found@, lights@, list@.take(i as int)),
        decreases list@.len() - i,
    {
        let ghost before = items@;
        let item = object(&found[list[i]], lights);
        let ghost text = item@;
        items.push(item);
        assert(views(items@) =~= views(before).push(text));
        assert(json_objects(found@, lights@, list@.take(i + 1)) =~= json_objects(
            found@,
            lights@,
            list@.take(i as int),
        ).push(text));
        i += 1;
    }
    assert(list@.take(i as int) == list@);
    let mut out = "[".to_string();
    push_joined(&mut out, &items, ",");
    out.append("]");
    out
}

/// What a device is called in the table.
pub open spec fn kind_text(is_neewer: bool, is_known: bool) -> Seq<char> {
    if is_neewer && is_known {
        "Neewer (configured)"@
    } else if is_neewer {
        "Neewer"@
    } else {
        "other"@
    }
}

/// A name, or what stands for an empty one.
pub open spec fn name_or(name: Seq<char>, other: Seq<char>) -> Seq<char> {
    if name.len() == 0 {
        other
    } else {
        name
    }
}

/// A signal strength in the table.
pub open spec fn rssi_text(rssi: Option<i16>) -> Seq<char> {
    match rssi {
        Some(v) => int_dec(v as int),
        None => "  ?"@,
    }
}

/// The table row of a device.
pub open spec fn scan_text(number: nat, f: Found, is_known: bool) -> Seq<char> {
    "  "@ + column(dec(number), 3) + " "@ + column(name_or(f.name@, "(no name)"@), 22) + " "@
        + column(f.address@, 18) + " "@ + right_column(rssi_text(f.rssi), 4) + "  "@ + kind_text(
        f.is_neewer,
        is_known,
    )
}

fn decimal(n: u64) -> (r: String)
    ensures
        r@ == dec(n as nat),
{
    let mut out = String::new();
    push_dec(&mut out, n);
    assert(out@ =~= dec(n as nat));
    out
}

/// The table row of a device.
pub fn scan_row(number: usize, f: &Found, is_known: bool) -> (r: String)
    ensures
        r@ == scan_text(number as nat, *f, is_known),
{
    let rssi: String = match f.rssi {
        Some(v) => {
            let mut out = String::new();
            push_int_dec(&mut out, v as i64);
            assert(out@ =~= int_dec(v as int));
            out
        },
        None => "  ?".to_string(),
    };
    let mut out = "  ".to_string();
    push_column(&mut out, decimal(number as u64).as_str(), 3);
    out.append(" ");
    if f.name.as_str().is_empty() {
        push_column(&mut out, "(no name)", 22);
    } else {
        push_column(&mut out, f.name.as_str(), 22);
    }
    out.append(" ");
    push_column(&mut out, f.address.as_str(), 18);
    out.append(" ");
    push_right_column(&mut out, rssi.as_str(), 4);
    out.append("  ");
    if f.is_neewer {
        if is_known {
            out.append("Neewer (configured)");
        } else {
            out.append("Neewer");
        }
    } else {
        out.append("other");
    }
    out
}

/// Append one more text to a list where a flag is set.
pub open spec fn with_flag(list: Seq<Seq<char>>, flag: bool, text: Seq<char>) -> Seq<Seq<char>> {
    if flag {
        list.push(text)
    } else {
        list
    }
}

/// What a model can do beyond white and colour.
pub open spec fn extras(m: &Model) -> Seq<Seq<char>> {
    with_flag(
        with_flag(
            with_flag(
                with_flag(Seq::empty(), m.supports_rgbcw, "RGBCW"@),
                m.supports_xy,
                "XY"@,
            ),
            m.supports_dmx,
            "DMX"@,
        ),
        m.pixel_classify > 0,
        "Pixel"@,
    )
}

/// What a model is recognised by: all its product ids, else its first name part.
pub open spec fn recognised_by(m: &Model) -> Seq<char> {
    if m.product_ids@.len() > 0 {
        joined(views(m.product_ids@), ","@)
    } else if m.name_matches@.len() > 0 {
        m.name_matches@[0]@
    } else {
        Seq::empty()
    }
}

/// Yes, or a dash.
pub open spec fn yes_or_dash(b: bool) -> Seq<char> {
    if b {
        "yes"@
    } else {
        "—"@
    }
}

/// A colour-temperature range, given in hundreds of kelvin.
pub open spec fn range_text(min: u8, max: u8) -> Seq<char> {
    dec(min as nat) + "00-"@ + dec(max as nat) + "00"@
}

/// The table row of a model.
pub open spec fn model_text(m: &Model) -> Seq<char> {
    "  "@ + column(m.name@, 14) + " "@ + column(model_profile(m).name(), 8) + " "@ + column(
        yes_or_dash(m.supports_rgb),
        4,
    ) + " "@ + column(yes_or_dash(m.supports_gm), 3) + " "@ + column(
        range_text(m.cct_min, m.cct_max),
        11,
    ) + " "@ + column(recognised_by(m), 14) + " "@ + joined(extras(m), ","@)
}

fn flag_text(list: &mut Vec<String>, flag: bool, text: &str)
    ensures
        views(final(list)@) == with_flag(views(old(list)@), flag, text@),
{
    if flag {
        list.push(text.to_owned());
        assert(views(list@) =~= views(old(list)@).push(text@));
    }
}

fn push_range(out: &mut String, min: u8, max: u8)
    ensures
        final(out)@ == old(out)@ + dec(min as nat) + "00-"@ + dec(max as nat) + "00"@,
{
    push_dec(out, min as u64);
    out.append("00-");
    push_dec(out, max as u64);
    out.append("00");
}

/// The table row of a model.
pub fn model_row(m: &Model) -> (r: String)
    ensures
        r@ == model_text(m),
{
    let mut extra: Vec<String> = Vec::new();
    assert(views(extra@) =~= Seq::empty());
    flag_text(&mut extra, m.supports_rgbcw, "RGBCW");
    flag_text(&mut extra, m.supports_xy, "XY");
    flag_text(&mut extra, m.supports_dmx, "DMX");
    flag_text(&mut extra, m.pixel_classify > 0, "Pixel");
    let mut by = String::new();
    if m.product_ids.len() > 0 {
        push_joined(&mut by, &m.product_ids, ",");
    } else if m.name_matches.len() > 0 {
        by.append(m.name_matches[0].as_str());
    }
    assert(by@ =~= recognised_by(m));
    let mut range = String::new();
    push_range(&mut range, m.cct_min, m.cct_max);
    assert(range@ =~= range_text(m.cct_min, m.cct_max));
    let mut out = "  ".to_string();
    push_column(&mut out, m.name.as_str(), 14);
    out.append(" ");
    push_column(&mut out, m.profile().as_str(), 8);
    out.append(" ");
    push_column(&mut out, if m.supports_rgb { "yes" } else { "—" }, 4);
    out.append(" ");
    push_column(&mut out, if m.supports_gm { "yes" } else { "—" }, 3);
    out.append(" ");
    push_column(&mut out, range.as_str(), 11);
    out.append(" ");
    push_column(&mut out, by.as_str(), 14);
    out.append(" ");
    push_joined(&mut out, &extra, ",");
    out
}

/// The profile of a configured light; white where it names none.
pub open spec fn profile_of(l: &LightCfg) -> Profile {
    match Profile::named(l.profile@) {
        Some(p) => p,
        None => Profile::Cct,
    }
}

/// The name of a configured light in the table.
pub open spec fn label_text(l: &LightCfg) -> Seq<char> {
    match l.name {
        Some(n) => name_or(n@, "(unnamed)"@),
        None => "(unnamed)"@,
    }
}

/// The line of one channel.
pub open spec fn channel_text(l: &LightCfg, i: int) -> Seq<char> {
    "        U"@ + dec(l.universe as nat) + " ch"@ + column(dec((l.address + i) as nat), 3)
        + " → "@ + profile_of(l).roles()[i]
}

/// The heading of a configured light.
pub open spec fn heading_text(number: nat, l: &LightCfg) -> Seq<char> {
    "  ["@ + dec(number) + "] "@ + label_text(l) + "  ("@ + l.mac@ + ")"@
}

/// How a configured light is driven.
pub open spec fn drive_text(l: &LightCfg) -> Seq<char> {
    "      driver "@ + l.driver@ + " · profile "@ + l.profile@ + " · CCT "@ + dec(
        l.cct_min as nat,
    ) + "00-"@ + dec(l.cct_max as nat) + "00"@ + "K · power-on-connect "@ + bool_text(
        l.power_on_connect,
    )
}

/// Where a configured light listens.
pub open spec fn patch_text(l: &LightCfg) -> Seq<char> {
    "      universe "@ + dec(l.universe as nat) + " (Net "@ + dec((l.universe / 256 % 128) as nat)
        + " / Sub-Net "@ + dec((l.universe / 16 % 16) as nat) + " / Universe "@ + dec(
        (l.universe % 16) as nat,
    ) + ") · DMX channels "@ + dec(l.address as nat) + "-"@ + dec(
        (l.address + profile_of(l).channels() - 1) as nat,
    )
}

/// The lines of a configured light: its heading, how it is driven, where it listens,
/// then one line for every channel.
pub open spec fn light_texts(number: nat, l: &LightCfg) -> Seq<Seq<char>> {
    seq![heading_text(number, l), drive_text(l), patch_text(l)] + Seq::new(
        profile_of(l).channels() as nat,
        |i: int| channel_text(l, i),
    )
}

fn heading(number: usize, l: &LightCfg) -> (r: String)
    ensures
        r@ == heading_text(number as nat, l),
{
    let mut out = "  [".to_string();
    push_dec(&mut out, number as u64);
    out.append("] ");
    match &l.name {
        Some(n) => if n.as_str().is_empty() {
            out.append("(unnamed)");
        } else {
            out.append(n.as_str());
        },
        None => {
            out.append("(unnamed)");
        },
    }
    out.append("  (");
    out.append(l.mac.as_str());
    out.append(")");
    out
}

fn drive(l: &LightCfg) -> (r: String)
    ensures
        r@ == drive_text(l),
{
    let mut out = "      driver ".to_string();
    out.append(l.driver.as_str());
    out.append(" · profile ");
    out.append(l.profile.as_str());
    out.append(" · CCT ");
    push_range(&mut out, l.cct_min, l.cct_max);
    out.append("K · power-on-connect ");
    append_bool(&mut out, l.power_on_connect);
    out
}

fn patch(l: &LightCfg, profile: Profile) -> (r: String)
    requires
        profile == profile_of(l),
    ensures
        r@ == patch_text(l),
{
    let (net, sub_net, uni) = split_port_address(l.universe);
    let last: u64 = l.address as u64 + profile.channel_count() as u64 - 1;
    let mut out = "      universe ".to_string();
    push_dec(&mut out, l.universe as u64);
    out.append(" (Net ");
    push_dec(&mut out, net as u64);
    out.append(" / Sub-Net ");
    push_dec(&mut out, sub_net as u64);
    out.append(" / Universe ");
    push_dec(&mut out, uni as u64);
    out.append(") · DMX channels ");
    push_dec(&mut out, l.address as u64);
    out.append("-");
    push_dec(&mut out, last);
    out
}

/// The lines of a configured light.
pub fn light_lines(number: usize, l: &LightCfg) -> (r: Vec<String>)
    ensures
        views(r@) == light_texts(number as nat, l),
{
    let profile: Profile = match Profile::parse(l.profile.as_str()) {
        Some(p) => p,
        None => Profile::Cct,
    };
    let mut lines: Vec<String> = Vec::new();
    lines.push(heading(number, l));
    lines.push(drive(l));
    lines.push(patch(l, profile));
    let ghost start = seq![heading_text(number as nat, l), drive_text(l), patch_text(l)];
    assert(views(lines@) =~= start);
    let roles = profile.channel_roles();
    let mut i: usize = 0;
    assert(views(lines@) =~= start + Seq::new(0, |k: int| channel_text(l, k)));
    while i < roles.len()
        invariant
            i <= roles@.len(),
            roles@.len() == profile.channels(),
            profile == profile_of(l),
            Seq::new(roles@.len(), |k: int| roles@[k]@) == profile.roles(),
            views(lines@) == start + Seq::new(i as nat, |k: int| channel_text(l, k)),
        decreases roles@.len() - i,
    {
        assert(profile.roles()[i as int] == roles@[i as int]@);
        let ghost before = lines@;
        let mut out = "        U".to_string();
        push_dec(&mut out, l.universe as u64);
        out.append(" ch");
        push_column(&mut out, decimal(l.address as u64 + i as u64).as_str(), 3);
        out.append(" → ");
        out.append(roles[i]);
        let ghost text = out@;
        assert(text == channel_text(l, i as int));
        lines.push(out);
        assert(views(lines@) =~= views(before).push(text));
        i += 1;
        assert(views(lines@) =~= start + Seq::new(i as nat, |k: int| channel_text(l, k)));
    }
    lines
}

/// Bytes as text, with a dot for everything that is not printable ASCII.
pub open spec fn printable(bytes: Seq<u8>) -> Seq<char> {
    Seq::new(
        bytes.len(),
        |i: int|
            if 0x20 <= bytes[i] < 0x7f {
                bytes[i] as char
            } else {
                '.'
            },
    )
}

/// Bytes as text, with a dot for everything that is not printable ASCII.
pub fn ascii(bytes: &[u8]) -> (r: String)
    ensures
        r@ == printable(bytes@),
{
    let mut out = String::new();
    let mut i: usize = 0;
    while i < bytes.len()
        invariant
            i <= bytes@.len(),
            out@ == printable(bytes@.take(i as int)),
        decreases bytes@.len() - i,
    {
        let b: u8 = bytes[i];
        if 0x20 <= b && b < 0x7f {
            out.push(b as char);
        } else {
            out.push('.');
        }
        i += 1;
        assert(out@ =~= printable(bytes@.take(i as int)));
    }
    assert(bytes@.take(i as int) == bytes@);
    out
}

} // verus!
