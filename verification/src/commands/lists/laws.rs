//! What holds of what the commands list.

use vstd::prelude::*;
use vstd::string::*;
use super::{
    channel_text, configured, drive_text, extras, heading_text, hidden, hides, json_char,
    json_object, json_text, kind_text, label_text, light_texts, model_text, name_or, patch_text,
    printable, profile_of, range_text, recognised_by, rssi_json, rssi_text, scan_text, shown, shows,
    yes_or_dash,
};
use crate::ble::Found;
use crate::commands::add::model_profile;
use crate::config::{bool_text, mac_bytes, LightCfg};
use crate::models::Model;
use crate::profile::Profile;
use crate::text::laws::{chained, law_pieces_are_parts};
use crate::text::{column, dec, has_part, int_dec, joined, right_column};

verus! {

broadcast use vstd::string::group_string_axioms;

/// A device is configured where a light has its MAC, however the two are spelt.
pub proof fn law_configured_by_bytes(lights: Seq<LightCfg>, address: Seq<char>)
    requires
        mac_bytes(address) is Some,
        forall|i: int| 0 <= i < lights.len() ==> mac_bytes((#[trigger] lights[i]).mac@) is Some,
    ensures
        configured(lights, address) <==> exists|i: int|
            0 <= i < lights.len() && mac_bytes((#[trigger] lights[i]).mac@) == mac_bytes(address),
{
    if configured(lights, address) {
        let i = choose|i: int|
            0 <= i < lights.len() && crate::config::same_mac(#[trigger] lights[i].mac@, address);
        assert(mac_bytes(lights[i].mac@) == mac_bytes(address));
    }
    if exists|i: int|
        0 <= i < lights.len() && mac_bytes((#[trigger] lights[i]).mac@) == mac_bytes(address) {
        let i = choose|i: int|
            0 <= i < lights.len() && mac_bytes((#[trigger] lights[i]).mac@) == mac_bytes(address);
        assert(crate::config::same_mac(lights[i].mac@, address));
    }
}

/// Without `--all` a scan shows the Neewer lights that are not configured and hides those
/// that are; with it, it shows everything and hides nothing.
pub proof fn law_what_a_scan_shows(f: Found, lights: Seq<LightCfg>)
    ensures
        shows(f, lights, true),
        !hides(f, lights, true),
        shows(f, lights, false) <==> f.is_neewer && !configured(lights, f.address@),
        hides(f, lights, false) <==> f.is_neewer && configured(lights, f.address@),
{
}

/// One more device adds its position behind the others where it is shown, and one to the
/// count where it is hidden.
pub proof fn law_scans_go_on(found: Seq<Found>, f: Found, lights: Seq<LightCfg>, all: bool)
    requires
        found.len() < usize::MAX,
    ensures
        shown(Seq::empty(), lights, all).len() == 0,
        hidden(Seq::empty(), lights, all) == 0,
        all || (f.is_neewer && !configured(lights, f.address@)) ==> shown(
            found.push(f),
            lights,
            all,
        ) == shown(found, lights, all).push(found.len() as usize),
        !all && (!f.is_neewer || configured(lights, f.address@)) ==> shown(
            found.push(f),
            lights,
            all,
        ) == shown(found, lights, all),
        hidden(found.push(f), lights, all) == hidden(found, lights, all) + if !all && f.is_neewer
            && configured(lights, f.address@) {
            1int
        } else {
            0int
        },
{
    assert(found.push(f).drop_last() =~= found);
}

/// How one more character stands in a JSON string: a backslash and a quote behind a
/// backslash, a control character as a blank, any other as itself.
pub proof fn law_json_escapes(s: Seq<char>, c: char)
    ensures
        json_text(Seq::empty()).len() == 0,
        c == '\\' || c == '"' ==> json_text(s.push(c)) == json_text(s).push('\\').push(c),
        (c as int) < 32 ==> json_text(s.push(c)) == json_text(s).push(' '),
        c != '\\' && c != '"' && c as int >= 32 ==> json_text(s.push(c)) == json_text(s).push(c),
{
    assert(s.push(c).drop_last() =~= s);
    assert(json_text(s.push(c)) == json_text(s) + json_char(c));
    assert(json_text(s) + seq!['\\', c] =~= json_text(s).push('\\').push(c));
    assert(json_text(s) + seq![c] =~= json_text(s).push(c));
    assert(json_text(s) + seq![' '] =~= json_text(s).push(' '));
}

/// A device in JSON: its name and MAC as strings, its signal strength as a number or `null`,
/// and whether it is a Neewer light and configured.
#[verifier::rlimit(50)]
pub proof fn law_json_objects(f: Found, lights: Seq<LightCfg>)
    ensures
        has_part(json_object(f, lights), "{\"name\":\""@ + json_text(f.name@) + "\",\"mac\":\""@),
        has_part(
            json_object(f, lights),
            "\",\"mac\":\""@ + json_text(f.address@) + "\",\"rssi\":"@,
        ),
        has_part(json_object(f, lights), "\",\"rssi\":"@ + rssi_json(f.rssi) + ",\"neewer\":"@),
        has_part(
            json_object(f, lights),
            ",\"neewer\":"@ + bool_text(f.is_neewer) + ",\"configured\":"@,
        ),
        has_part(
            json_object(f, lights),
            ",\"configured\":"@ + bool_text(configured(lights, f.address@)) + "}"@,
        ),
{
    let p = seq![
        "{\"name\":\""@,
        json_text(f.name@),
        "\",\"mac\":\""@,
        json_text(f.address@),
        "\",\"rssi\":"@,
        rssi_json(f.rssi),
        ",\"neewer\":"@,
        bool_text(f.is_neewer),
        ",\"configured\":"@,
        bool_text(configured(lights, f.address@)),
        "}"@,
    ];
    reveal_with_fuel(chained, 12);
    assert(json_object(f, lights) =~= chained(p, 11));
    law_pieces_are_parts(p, 11, 0);
    law_pieces_are_parts(p, 11, 2);
    law_pieces_are_parts(p, 11, 4);
    law_pieces_are_parts(p, 11, 6);
    law_pieces_are_parts(p, 11, 8);
}

/// A signal strength is written as a number with its sign; a missing one has a word of its
/// own.
pub proof fn law_signal_strengths(v: i16)
    ensures
        rssi_json(Some(v)) == int_dec(v as int) && rssi_text(Some(v)) == int_dec(v as int),
        rssi_json(None) == "null"@ && rssi_text(None) == "  ?"@,
{
}

/// What a device is called says whether it is a Neewer light, and a configured one.
pub proof fn law_device_kinds(is_neewer: bool, is_known: bool)
    ensures
        kind_text(true, true) == "Neewer (configured)"@,
        kind_text(true, false) == "Neewer"@,
        kind_text(false, is_known) == "other"@,
{
}

/// An empty name is replaced, any other stands.
pub proof fn law_empty_names_are_replaced(name: Seq<char>, other: Seq<char>, l: LightCfg)
    ensures
        name.len() > 0 ==> name_or(name, other) == name,
        name.len() == 0 ==> name_or(name, other) == other,
        l.name is Some && l.name->0@.len() > 0 ==> label_text(&l) == l.name->0@,
        l.name is None || l.name->0@.len() == 0 ==> label_text(&l) == "(unnamed)"@,
{
}

/// A row of a scan: the number, the name, the address, the signal strength and the kind, in
/// columns.
#[verifier::rlimit(50)]
pub proof fn law_scan_rows(number: nat, f: Found, is_known: bool)
    ensures
        has_part(scan_text(number, f, is_known), "  "@ + column(dec(number), 3) + " "@),
        has_part(
            scan_text(number, f, is_known),
            " "@ + column(name_or(f.name@, "(no name)"@), 22) + " "@,
        ),
        has_part(scan_text(number, f, is_known), " "@ + column(f.address@, 18) + " "@),
        has_part(scan_text(number, f, is_known), " "@ + right_column(rssi_text(f.rssi), 4) + "  "@),
        has_part(
            scan_text(number, f, is_known),
            right_column(rssi_text(f.rssi), 4) + "  "@ + kind_text(f.is_neewer, is_known),
        ),
{
    let p = seq![
        "  "@,
        column(dec(number), 3),
        " "@,
        column(name_or(f.name@, "(no name)"@), 22),
        " "@,
        column(f.address@, 18),
        " "@,
        right_column(rssi_text(f.rssi), 4),
        "  "@,
        kind_text(f.is_neewer, is_known),
    ];
    reveal_with_fuel(chained, 11);
    assert(scan_text(number, f, is_known) =~= chained(p, 10));
    law_pieces_are_parts(p, 10, 0);
    law_pieces_are_parts(p, 10, 2);
    law_pieces_are_parts(p, 10, 4);
    law_pieces_are_parts(p, 10, 6);
    law_pieces_are_parts(p, 10, 7);
}

/// What a model can do beyond white and colour, in a fixed order, is listed where it can.
pub proof fn law_model_extras(m: &Model)
    ensures
        extras(m).contains("RGBCW"@) <==> m.supports_rgbcw,
        extras(m).contains("XY"@) <==> m.supports_xy,
        extras(m).contains("DMX"@) <==> m.supports_dmx,
        extras(m).contains("Pixel"@) <==> m.pixel_classify > 0,
        extras(m).len() <= 4,
{
    reveal_strlit("RGBCW");
    reveal_strlit("XY");
    reveal_strlit("DMX");
    reveal_strlit("Pixel");
    assert("RGBCW"@[0] == 'R' && "XY"@[0] == 'X' && "DMX"@[0] == 'D' && "Pixel"@[0] == 'P');
    let none = Seq::<Seq<char>>::empty();
    let a = super::with_flag(none, m.supports_rgbcw, "RGBCW"@);
    let b = super::with_flag(a, m.supports_xy, "XY"@);
    let c = super::with_flag(b, m.supports_dmx, "DMX"@);
    lemma_flagged(none, m.supports_rgbcw, "RGBCW"@);
    lemma_flagged(a, m.supports_xy, "XY"@);
    lemma_flagged(b, m.supports_dmx, "DMX"@);
    lemma_flagged(c, m.pixel_classify > 0, "Pixel"@);
}

proof fn lemma_flagged(list: Seq<Seq<char>>, flag: bool, text: Seq<char>)
    ensures
        forall|t: Seq<char>| #[trigger]
            super::with_flag(list, flag, text).contains(t) <==> list.contains(t) || (flag && t
                == text),
{
    let after = super::with_flag(list, flag, text);
    assert forall|t: Seq<char>| #[trigger] after.contains(t) <==> list.contains(t) || (flag && t
        == text) by {
        if list.contains(t) {
            let i = choose|i: int| 0 <= i < list.len() && list[i] == t;
            assert(after[i] == t);
        }
        if flag && t == text {
            assert(after[list.len() as int] == t);
        }
        if after.contains(t) {
            let i = choose|i: int| 0 <= i < after.len() && after[i] == t;
            if i < list.len() {
                assert(list[i] == t);
            }
        }
    }
}

/// A model is recognised by its product ids, all of them; one without, by its first name
/// part.
pub proof fn law_recognised_by(m: &Model)
    ensures
        m.product_ids@.len() == 1 ==> recognised_by(m) == m.product_ids@[0]@,
        m.product_ids@.len() == 2 ==> recognised_by(m) == m.product_ids@[0]@ + ","@
            + m.product_ids@[1]@,
        m.product_ids@.len() > 0 ==> recognised_by(m) == joined(
            Seq::new(m.product_ids@.len(), |i: int| m.product_ids@[i]@),
            ","@,
        ),
        m.product_ids@.len() == 0 && m.name_matches@.len() > 0 ==> recognised_by(m)
            == m.name_matches@[0]@,
        m.product_ids@.len() == 0 && m.name_matches@.len() == 0 ==> recognised_by(m).len() == 0,
{
    let v = crate::text::views(m.product_ids@);
    assert(v =~= Seq::new(m.product_ids@.len(), |i: int| m.product_ids@[i]@));
    if v.len() == 2 {
        reveal_with_fuel(joined, 3);
        assert(v.drop_last() =~= seq![v[0]]);
    }
}

/// A colour-temperature range is written in kelvin.
pub proof fn law_ranges_in_kelvin(min: u8, max: u8)
    ensures
        range_text(min, max) == dec(min as nat) + "00-"@ + dec(max as nat) + "00"@,
        yes_or_dash(true) == "yes"@ && yes_or_dash(false) == "—"@,
{
}

/// A row of the models: the name, the profile, colour, tint, the kelvin range, what it is
/// recognised by and what else it can do, in columns.
#[verifier::rlimit(50)]
pub proof fn law_model_rows(m: &Model)
    ensures
        has_part(model_text(m), "  "@ + column(m.name@, 14) + " "@),
        has_part(model_text(m), " "@ + column(model_profile(m).name(), 8) + " "@),
        has_part(model_text(m), " "@ + column(yes_or_dash(m.supports_rgb), 4) + " "@),
        has_part(model_text(m), " "@ + column(yes_or_dash(m.supports_gm), 3) + " "@),
        has_part(model_text(m), " "@ + column(range_text(m.cct_min, m.cct_max), 11) + " "@),
        has_part(model_text(m), " "@ + column(recognised_by(m), 14) + " "@),
        has_part(model_text(m), column(recognised_by(m), 14) + " "@ + joined(extras(m), ","@)),
{
    let p = seq![
        "  "@,
        column(m.name@, 14),
        " "@,
        column(model_profile(m).name(), 8),
        " "@,
        column(yes_or_dash(m.supports_rgb), 4),
        " "@,
        column(yes_or_dash(m.supports_gm), 3),
        " "@,
        column(range_text(m.cct_min, m.cct_max), 11),
        " "@,
        column(recognised_by(m), 14),
        " "@,
        joined(extras(m), ","@),
    ];
    reveal_with_fuel(chained, 15);
    assert(model_text(m) =~= chained(p, 14));
    law_pieces_are_parts(p, 14, 0);
    law_pieces_are_parts(p, 14, 2);
    law_pieces_are_parts(p, 14, 4);
    law_pieces_are_parts(p, 14, 6);
    law_pieces_are_parts(p, 14, 8);
    law_pieces_are_parts(p, 14, 10);
    law_pieces_are_parts(p, 14, 11);
}

/// The heading of a light says its number, its name and its MAC.
pub proof fn law_headings(number: nat, l: &LightCfg)
    ensures
        has_part(heading_text(number, l), "  ["@ + dec(number) + "] "@),
        has_part(heading_text(number, l), "] "@ + label_text(l) + "  ("@),
        has_part(heading_text(number, l), "  ("@ + l.mac@ + ")"@),
{
    let p = seq![
        "  ["@,
        dec(number),
        "] "@,
        label_text(l),
        "  ("@,
        l.mac@,
        ")"@,
    ];
    reveal_with_fuel(chained, 8);
    assert(heading_text(number, l) =~= chained(p, 7));
    law_pieces_are_parts(p, 7, 0);
    law_pieces_are_parts(p, 7, 2);
    law_pieces_are_parts(p, 7, 4);
}

/// How a light is driven: its driver, its profile, its kelvin range and whether it is powered
/// on connect.
#[verifier::rlimit(50)]
pub proof fn law_drive_lines(l: &LightCfg)
    ensures
        has_part(drive_text(l), "      driver "@ + l.driver@ + " · profile "@),
        has_part(drive_text(l), " · profile "@ + l.profile@ + " · CCT "@),
        has_part(drive_text(l), " · CCT "@ + dec(l.cct_min as nat) + "00-"@),
        has_part(drive_text(l), "00-"@ + dec(l.cct_max as nat) + "00"@),
        has_part(drive_text(l), "00"@ + "K · power-on-connect "@ + bool_text(l.power_on_connect)),
{
    let p = seq![
        "      driver "@,
        l.driver@,
        " · profile "@,
        l.profile@,
        " · CCT "@,
        dec(l.cct_min as nat),
        "00-"@,
        dec(l.cct_max as nat),
        "00"@,
        "K · power-on-connect "@,
        bool_text(l.power_on_connect),
    ];
    reveal_with_fuel(chained, 12);
    assert(drive_text(l) =~= chained(p, 11));
    law_pieces_are_parts(p, 11, 0);
    law_pieces_are_parts(p, 11, 2);
    law_pieces_are_parts(p, 11, 4);
    law_pieces_are_parts(p, 11, 6);
    law_pieces_are_parts(p, 11, 8);
}

proof fn lemma_universe_parts(universe: u16, net: u8, sub: u8, uni: u8)
    requires
        net < 128,
        sub < 16,
        uni < 16,
        universe == net * 256 + sub * 16 + uni,
    ensures
        (universe / 256 % 128) as nat == net as nat,
        (universe / 16 % 16) as nat == sub as nat,
        (universe % 16) as nat == uni as nat,
{
}

/// Where a light listens: its universe, as a number and by its three parts, and its first
/// and last channel.
#[verifier::rlimit(50)]
pub proof fn law_patch_lines(l: &LightCfg, net: u8, sub: u8, uni: u8)
    requires
        net < 128,
        sub < 16,
        uni < 16,
        l.universe == net * 256 + sub * 16 + uni,
    ensures
        has_part(patch_text(l), "      universe "@ + dec(l.universe as nat) + " (Net "@),
        has_part(patch_text(l), " (Net "@ + dec(net as nat) + " / Sub-Net "@),
        has_part(patch_text(l), " / Sub-Net "@ + dec(sub as nat) + " / Universe "@),
        has_part(patch_text(l), " / Universe "@ + dec(uni as nat) + ") · DMX channels "@),
        has_part(patch_text(l), ") · DMX channels "@ + dec(l.address as nat) + "-"@),
        has_part(
            patch_text(l),
            dec(l.address as nat) + "-"@ + dec((l.address + profile_of(l).channels() - 1) as nat),
        ),
{
    let p = seq![
        "      universe "@,
        dec(l.universe as nat),
        " (Net "@,
        dec(net as nat),
        " / Sub-Net "@,
        dec(sub as nat),
        " / Universe "@,
        dec(uni as nat),
        ") · DMX channels "@,
        dec(l.address as nat),
        "-"@,
        dec((l.address + profile_of(l).channels() - 1) as nat),
    ];
    lemma_universe_parts(l.universe, net, sub, uni);
    reveal_with_fuel(chained, 13);
    assert(patch_text(l) == chained(p, 12));
    law_pieces_are_parts(p, 12, 0);
    law_pieces_are_parts(p, 12, 2);
    law_pieces_are_parts(p, 12, 4);
    law_pieces_are_parts(p, 12, 6);
    law_pieces_are_parts(p, 12, 8);
    law_pieces_are_parts(p, 12, 9);
}

/// One line for every channel of a light, behind three lines about it: the universe, the
/// channel itself, and what it does.
pub proof fn law_channel_lines(number: nat, l: &LightCfg, i: int)
    requires
        0 <= i < profile_of(l).channels(),
    ensures
        light_texts(number, l).len() == 3 + profile_of(l).channels(),
        light_texts(number, l)[0] == heading_text(number, l),
        light_texts(number, l)[1] == drive_text(l),
        light_texts(number, l)[2] == patch_text(l),
        has_part(
            light_texts(number, l)[3 + i],
            "        U"@ + dec(l.universe as nat) + " ch"@,
        ),
        has_part(
            light_texts(number, l)[3 + i],
            " ch"@ + column(dec((l.address + i) as nat), 3) + " → "@,
        ),
        has_part(
            light_texts(number, l)[3 + i],
            column(dec((l.address + i) as nat), 3) + " → "@ + profile_of(l).roles()[i],
        ),
        Profile::named(l.profile@) is Some ==> profile_of(l) == Profile::named(l.profile@)->0,
        Profile::named(l.profile@) is None ==> profile_of(l) == Profile::Cct,
{
    let p = seq![
        "        U"@,
        dec(l.universe as nat),
        " ch"@,
        column(dec((l.address + i) as nat), 3),
        " → "@,
        profile_of(l).roles()[i],
    ];
    reveal_with_fuel(chained, 7);
    assert(light_texts(number, l)[3 + i] == channel_text(l, i));
    assert(channel_text(l, i) =~= chained(p, 6));
    law_pieces_are_parts(p, 6, 0);
    law_pieces_are_parts(p, 6, 2);
    law_pieces_are_parts(p, 6, 3);
}

/// Bytes as text: a printable character stands for itself, anything else is a dot.
pub proof fn law_printable_bytes(bytes: Seq<u8>, i: int)
    requires
        0 <= i < bytes.len(),
    ensures
        printable(bytes).len() == bytes.len(),
        0x20 <= bytes[i] <= 0x7E ==> printable(bytes)[i] as int == bytes[i],
        bytes[i] < 0x20 || bytes[i] > 0x7E ==> printable(bytes)[i] == '.',
{
}

} // verus!
