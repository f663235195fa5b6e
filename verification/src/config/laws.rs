//! What holds of a configuration and of the texts it is made of.

use vstd::prelude::*;
use vstd::string::*;
use super::validate::bare;
use super::{
    bool_text, canonical_mac, colon_form, hex_digits, light_block, line_ended, mac_bytes, name_line,
    same_mac, toml_char, toml_text, ArtNet, Config, FailsafeMode, LightCfg,
};
use crate::merge::{mode_named, MergeMode};
use crate::profile::Profile;
use crate::text::laws::{law_parts, law_parts_stay, nibble};
use crate::text::{dec, has_part, hex2, lower, trimmed};

verus! {

broadcast use vstd::string::group_string_axioms;

/// What a configuration says where nothing is written: ArtNet on every interface at port
/// 6454, latest takes precedence with ten seconds, 15 updates a second, a probe every 20
/// seconds, bursts of 8 seconds every 15, lights that hold, and `info` on the console.
pub proof fn law_defaults(c: Config)
    requires
        c.is_default(),
    ensures
        c.artnet.bind_ip@ == "0.0.0.0"@ && c.artnet.port == 6454 && c.artnet.inputs@.len() == 0,
        c.artnet.merge@ == "ltp"@ && c.artnet.merge_timeout_secs == 10,
        c.ble.adapter@ == "default"@ && c.ble.flush_hz == 15 && c.ble.probe_secs == 20,
        c.ble.scan_window_secs == 8 && c.ble.scan_pause_secs == 15,
        c.failsafe.mode@ == "hold"@ && c.failsafe.timeout_secs == 0,
        c.logging.level@ == "info"@ && c.logging.console && c.logging.console_level is None,
        c.logging.file is None && c.logging.file_level is None,
        c.logging.max_size_mb == 10 && c.logging.max_files == 5,
        c.lights@.len() == 0,
{
}

/// The listeners: the primary one comes first, and extra input `k` is listener `k + 1`,
/// bound where it says; one without a name is labelled by its number, counted from 1.
pub proof fn law_listeners(a: ArtNet, k: int)
    requires
        0 <= k < a.inputs@.len(),
    ensures
        a.input_count() == a.inputs@.len() + 1,
        a.ip_at(0) == a.bind_ip@ && a.port_at(0) == a.port && a.label_at(0) == "primary"@,
        a.ip_at(k + 1) == a.inputs@[k].bind_ip@,
        a.port_at(k + 1) == a.inputs@[k].port,
        a.inputs@[k].name is Some && a.inputs@[k].name->0@.len() > 0 ==> a.label_at(k + 1)
            == a.inputs@[k].name->0@,
        a.inputs@[k].name is None || a.inputs@[k].name->0@.len() == 0 ==> a.label_at(k + 1)
            == "input"@ + dec((k + 1) as nat),
{
}

/// A failsafe mode is chosen by its own name alone.
pub proof fn law_failsafe_names(s: Seq<char>)
    ensures
        FailsafeMode::named(s) == Some(FailsafeMode::Hold) <==> s == "hold"@,
        FailsafeMode::named(s) == Some(FailsafeMode::Blackout) <==> s == "blackout"@,
        FailsafeMode::named(s) == Some(FailsafeMode::PowerOff) <==> s == "poweroff"@,
        FailsafeMode::Hold.name() == "hold"@,
        FailsafeMode::Blackout.name() == "blackout"@,
        FailsafeMode::PowerOff.name() == "poweroff"@,
{
    reveal_strlit("hold");
    reveal_strlit("blackout");
    reveal_strlit("poweroff");
    assert("hold"@.len() == 4 && "blackout"@.len() == 8 && "poweroff"@.len() == 8);
    assert("blackout"@[0] == 'b' && "poweroff"@[0] == 'p');
}

/// A merge mode is chosen by its names alone.
pub proof fn law_merge_names(s: Seq<char>)
    ensures
        mode_named(s) == Some(MergeMode::Htp) <==> s == "htp"@ || s == "highest"@,
        mode_named(s) == Some(MergeMode::Lowest) <==> s == "lowest"@,
        mode_named(s) == Some(MergeMode::Ltp) <==> s == "ltp"@ || s == "latest"@,
{
    reveal_strlit("htp");
    reveal_strlit("highest");
    reveal_strlit("lowest");
    reveal_strlit("ltp");
    reveal_strlit("latest");
    assert("htp"@.len() == 3 && "ltp"@.len() == 3 && "highest"@.len() == 7 && "lowest"@.len() == 6
        && "latest"@.len() == 6);
    assert("htp"@[0] == 'h' && "ltp"@[0] == 'l');
    assert("lowest"@[1] == 'o' && "latest"@[1] == 'a');
}

/// A profile is chosen by its own name alone.
pub proof fn law_profile_names(s: Seq<char>)
    ensures
        Profile::named(s) == Some(Profile::Cct) <==> s == "cct"@,
        Profile::named(s) == Some(Profile::CctGm) <==> s == "cct_gm"@,
        Profile::named(s) == Some(Profile::Hsi) <==> s == "hsi"@,
        Profile::named(s) == Some(Profile::Rgb) <==> s == "rgb"@,
        Profile::named(s) == Some(Profile::Rgbcw) <==> s == "rgbcw"@,
        Profile::named(s) == Some(Profile::Full) <==> s == "full"@,
        Profile::named(s) == Some(Profile::Advanced) <==> s == "advanced"@,
        Profile::named(s) == Some(Profile::Pixel) <==> s == "pixel"@,
{
    reveal_strlit("cct");
    reveal_strlit("cct_gm");
    reveal_strlit("hsi");
    reveal_strlit("rgb");
    reveal_strlit("rgbcw");
    reveal_strlit("full");
    reveal_strlit("advanced");
    reveal_strlit("pixel");
    assert("cct"@.len() == 3 && "hsi"@.len() == 3 && "rgb"@.len() == 3 && "full"@.len() == 4);
    assert("rgbcw"@.len() == 5 && "pixel"@.len() == 5 && "cct_gm"@.len() == 6 && "advanced"@.len()
        == 8);
    assert("cct"@[0] == 'c' && "hsi"@[0] == 'h' && "rgb"@[0] == 'r');
    assert("rgbcw"@[0] == 'r' && "pixel"@[0] == 'p');
}

/// One more character adds its value to the digits of a text where it is a hexadecimal
/// digit, and nothing otherwise.
pub proof fn law_digits_of_a_text(s: Seq<char>, c: char)
    ensures
        hex_digits(Seq::empty()).len() == 0,
        ('0' <= c <= '9' || 'a' <= c <= 'f' || 'A' <= c <= 'F') ==> hex_digits(s.push(c)).len()
            == hex_digits(s).len() + 1 && hex_digits(s.push(c)).drop_last() == hex_digits(s)
            && hex_digits(s.push(c)).last() == nibble(c),
        !('0' <= c <= '9' || 'a' <= c <= 'f' || 'A' <= c <= 'F') ==> hex_digits(s.push(c))
            == hex_digits(s),
{
    assert(s.push(c).drop_last() =~= s);
    if '0' <= c <= '9' || 'a' <= c <= 'f' || 'A' <= c <= 'F' {
        assert(hex_digits(s.push(c)).drop_last() =~= hex_digits(s));
    }
}

/// A text is a MAC exactly when it holds twelve digits; byte `i` is digit `2 * i` times
/// sixteen and the digit behind it.
pub proof fn law_mac_of_a_text(s: Seq<char>, i: int)
    requires
        0 <= i < 6,
    ensures
        mac_bytes(s) is Some <==> hex_digits(s).len() == 12,
        mac_bytes(s) matches Some(b) ==> {
            &&& b.len() == 6
            &&& hex_digits(s)[2 * i] < 16 && hex_digits(s)[2 * i + 1] < 16 ==> b[i] == 16
                * hex_digits(s)[2 * i] + hex_digits(s)[2 * i + 1]
        },
{
}

/// The canonical form of a MAC: byte `i` as two upper-case digits at `3 * i`, a colon
/// between two.
pub proof fn law_colon_form_places(b: Seq<u8>, i: int)
    requires
        b.len() == 6,
        0 <= i < 6,
    ensures
        colon_form(b).len() == 17,
        16 * nibble(colon_form(b)[3 * i]) + nibble(colon_form(b)[3 * i + 1]) == b[i],
        !('a' <= colon_form(b)[3 * i] <= 'f') && !('a' <= colon_form(b)[3 * i + 1] <= 'f'),
        i < 5 ==> colon_form(b)[3 * i + 2] == ':',
{
    reveal_strlit(":");
    assert(":"@.len() == 1 && ":"@[0] == ':');
    crate::text::laws::law_hex_reads_back(b[i], true);
    let f = colon_form(b);
    assert(f[3 * i] == hex2(b[i], true)[0] && f[3 * i + 1] == hex2(b[i], true)[1]);
}

/// What a MAC text becomes, and when two of them are one light: by their bytes where both
/// have some, else by their letters, in either case.
pub proof fn law_mac_texts(a: Seq<char>, b: Seq<char>, up: Seq<char>)
    ensures
        mac_bytes(a) matches Some(x) ==> canonical_mac(a, up) == colon_form(x),
        mac_bytes(a) is None ==> canonical_mac(a, up) == up,
        mac_bytes(a) is Some && mac_bytes(b) is Some ==> (same_mac(a, b) <==> mac_bytes(a)
            == mac_bytes(b)),
        mac_bytes(a) is None || mac_bytes(b) is None ==> (same_mac(a, b) <==> lower(a) == lower(b)),
{
}

/// How one more character stands in a quoted string: a backslash and a quote behind a
/// backslash, a control character as a blank, any other as itself.
pub proof fn law_escapes(s: Seq<char>, c: char)
    ensures
        toml_text(Seq::empty()).len() == 0,
        c == '\\' || c == '"' ==> toml_text(s.push(c)) == toml_text(s).push('\\').push(c),
        (c as int) < 32 || c as int == 127 ==> toml_text(s.push(c)) == toml_text(s).push(' '),
        c != '\\' && c != '"' && c as int >= 32 && c as int != 127 ==> toml_text(s.push(c))
            == toml_text(s).push(c),
{
    assert(s.push(c).drop_last() =~= s);
    assert(toml_text(s.push(c)) == toml_text(s) + toml_char(c));
    assert(toml_text(s) + seq!['\\', c] =~= toml_text(s).push('\\').push(c));
    assert(toml_text(s) + seq![c] =~= toml_text(s).push(c));
    assert(toml_text(s) + seq![' '] =~= toml_text(s).push(' '));
}

/// The bare address: the text without white space and without a pair of brackets.
pub proof fn law_bare_addresses(s: Seq<char>, inner: Seq<char>)
    ensures
        trimmed(s) == seq!['['] + inner + seq![']'] ==> bare(s) == inner,
        trimmed(s).len() < 2 || trimmed(s)[0] != '[' || trimmed(s).last() != ']' ==> bare(s)
            == trimmed(s),
{
    let t = seq!['['] + inner + seq![']'];
    assert(t.subrange(1, t.len() - 1) =~= inner);
}

proof fn lemma_in_the_middle(
    front: Seq<char>,
    head: Seq<char>,
    key: Seq<char>,
    value: Seq<char>,
    end: Seq<char>,
    tail: Seq<char>,
)
    ensures
        has_part(front + (head + key) + value + (end + tail), key + value + end),
{
    let whole = front + (head + key) + value + (end + tail);
    assert(whole =~= (front + head) + (key + value + end) + tail);
    law_parts(front + head, key + value + end, tail, whole);
}

proof fn lemma_from_universe(l: &LightCfg, s: Seq<char>, part: Seq<char>)
    requires
        has_part(s, part),
    ensures
        has_part(
            s + dec(l.universe as nat) + "\naddress = "@ + dec(l.address as nat)
                + "\npower_on_connect = "@ + bool_text(l.power_on_connect) + "\ncct_min = "@
                + dec(l.cct_min as nat) + "\ncct_max = "@ + dec(l.cct_max as nat)
                + "\ncmd_type = "@ + dec(l.cmd_type as nat) + "\n"@,
            part,
        ),
{
    law_parts_stay(s, dec(l.universe as nat), part);
    law_parts_stay(s + dec(l.universe as nat), "\naddress = "@, part);
    lemma_from_address(l, s + dec(l.universe as nat) + "\naddress = "@, part);
}

proof fn lemma_from_address(l: &LightCfg, s: Seq<char>, part: Seq<char>)
    requires
        has_part(s, part),
    ensures
        has_part(
            s + dec(l.address as nat) + "\npower_on_connect = "@ + bool_text(l.power_on_connect)
                + "\ncct_min = "@ + dec(l.cct_min as nat) + "\ncct_max = "@
                + dec(l.cct_max as nat) + "\ncmd_type = "@ + dec(l.cmd_type as nat) + "\n"@,
            part,
        ),
{
    law_parts_stay(s, dec(l.address as nat), part);
    law_parts_stay(s + dec(l.address as nat), "\npower_on_connect = "@, part);
    lemma_from_power(l, s + dec(l.address as nat) + "\npower_on_connect = "@, part);
}

proof fn lemma_from_power(l: &LightCfg, s: Seq<char>, part: Seq<char>)
    requires
        has_part(s, part),
    ensures
        has_part(
            s + bool_text(l.power_on_connect) + "\ncct_min = "@ + dec(l.cct_min as nat)
                + "\ncct_max = "@ + dec(l.cct_max as nat) + "\ncmd_type = "@
                + dec(l.cmd_type as nat) + "\n"@,
            part,
        ),
{
    law_parts_stay(s, bool_text(l.power_on_connect), part);
    law_parts_stay(s + bool_text(l.power_on_connect), "\ncct_min = "@, part);
    lemma_from_min(l, s + bool_text(l.power_on_connect) + "\ncct_min = "@, part);
}

proof fn lemma_from_min(l: &LightCfg, s: Seq<char>, part: Seq<char>)
    requires
        has_part(s, part),
    ensures
        has_part(
            s + dec(l.cct_min as nat) + "\ncct_max = "@ + dec(l.cct_max as nat) + "\ncmd_type = "@
                + dec(l.cmd_type as nat) + "\n"@,
            part,
        ),
{
    law_parts_stay(s, dec(l.cct_min as nat), part);
    law_parts_stay(s + dec(l.cct_min as nat), "\ncct_max = "@, part);
    lemma_from_max(l, s + dec(l.cct_min as nat) + "\ncct_max = "@, part);
}

proof fn lemma_from_max(l: &LightCfg, s: Seq<char>, part: Seq<char>)
    requires
        has_part(s, part),
    ensures
        has_part(
            s + dec(l.cct_max as nat) + "\ncmd_type = "@ + dec(l.cmd_type as nat) + "\n"@,
            part,
        ),
{
    law_parts_stay(s, dec(l.cct_max as nat), part);
    law_parts_stay(s + dec(l.cct_max as nat), "\ncmd_type = "@, part);
    lemma_from_type(l, s + dec(l.cct_max as nat) + "\ncmd_type = "@, part);
}

proof fn lemma_from_type(l: &LightCfg, s: Seq<char>, part: Seq<char>)
    requires
        has_part(s, part),
    ensures
        has_part(s + dec(l.cmd_type as nat) + "\n"@, part),
{
    law_parts_stay(s, dec(l.cmd_type as nat), part);
    law_parts_stay(s + dec(l.cmd_type as nat), "\n"@, part);
}

proof fn lemma_literals()
    ensures
        "\n[[lights]]\nmac = \""@ == "\n[[lights]]\n"@ + "mac = \""@,
        "\"\nprofile = \""@ == "\"\n"@ + "profile = \""@,
        "\"\nuniverse = "@ == "\"\n"@ + "universe = "@,
        "\naddress = "@ == "\n"@ + "address = "@,
        "\npower_on_connect = "@ == "\n"@ + "power_on_connect = "@,
        "\ncct_min = "@ == "\n"@ + "cct_min = "@,
        "\ncct_max = "@ == "\n"@ + "cct_max = "@,
        "\ncmd_type = "@ == "\n"@ + "cmd_type = "@,
{
    reveal_strlit("\"\n");
    reveal_strlit("\"\nprofile = \"");
    reveal_strlit("\"\nuniverse = ");
    reveal_strlit("\n");
    reveal_strlit("\n[[lights]]\n");
    reveal_strlit("\n[[lights]]\nmac = \"");
    reveal_strlit("\naddress = ");
    reveal_strlit("\ncct_max = ");
    reveal_strlit("\ncct_min = ");
    reveal_strlit("\ncmd_type = ");
    reveal_strlit("\npower_on_connect = ");
    reveal_strlit("address = ");
    reveal_strlit("cct_max = ");
    reveal_strlit("cct_min = ");
    reveal_strlit("cmd_type = ");
    reveal_strlit("mac = \"");
    reveal_strlit("power_on_connect = ");
    reveal_strlit("profile = \"");
    reveal_strlit("universe = ");
    assert("\n[[lights]]\nmac = \""@ =~= "\n[[lights]]\n"@ + "mac = \""@);
    assert("\"\nprofile = \""@ =~= "\"\n"@ + "profile = \""@);
    assert("\"\nuniverse = "@ =~= "\"\n"@ + "universe = "@);
    assert("\naddress = "@ =~= "\n"@ + "address = "@);
    assert("\npower_on_connect = "@ =~= "\n"@ + "power_on_connect = "@);
    assert("\ncct_min = "@ =~= "\n"@ + "cct_min = "@);
    assert("\ncct_max = "@ =~= "\n"@ + "cct_max = "@);
    assert("\ncmd_type = "@ =~= "\n"@ + "cmd_type = "@);
}

/// The block of a light says everything about it, each on a line of its own: its MAC and
/// driver quoted, its profile quoted, and its numbers in decimal.
#[verifier::rlimit(60)]
pub proof fn law_a_block_says_everything(mac: Seq<char>, l: &LightCfg)
    ensures
        has_part(light_block(mac, l), "mac = \""@ + mac + "\"\n"@),
        has_part(light_block(mac, l), "driver = \""@ + l.driver@ + "\"\n"@),
        has_part(light_block(mac, l), "profile = \""@ + l.profile@ + "\"\n"@),
        has_part(light_block(mac, l), "universe = "@ + dec(l.universe as nat) + "\n"@),
        has_part(light_block(mac, l), "address = "@ + dec(l.address as nat) + "\n"@),
        has_part(
            light_block(mac, l),
            "power_on_connect = "@ + bool_text(l.power_on_connect) + "\n"@,
        ),
        has_part(light_block(mac, l), "cct_min = "@ + dec(l.cct_min as nat) + "\n"@),
        has_part(light_block(mac, l), "cct_max = "@ + dec(l.cct_max as nat) + "\n"@),
        has_part(light_block(mac, l), "cmd_type = "@ + dec(l.cmd_type as nat) + "\n"@),
{
    let none = Seq::<char>::empty();
    let s1 = "\n[[lights]]\nmac = \""@ + mac + "\"\n"@;
    let s2 = s1 + name_line(l.name);
    let s3 = s2 + "driver = \""@ + l.driver@ + "\"\nprofile = \""@;
    let s4 = s3 + l.profile@ + "\"\nuniverse = "@;
    let s5 = s4 + dec(l.universe as nat) + "\naddress = "@;
    let s6 = s5 + dec(l.address as nat) + "\npower_on_connect = "@;
    let s7 = s6 + bool_text(l.power_on_connect) + "\ncct_min = "@;
    let s8 = s7 + dec(l.cct_min as nat) + "\ncct_max = "@;
    let s9 = s8 + dec(l.cct_max as nat) + "\ncmd_type = "@;
    let s10 = s9 + dec(l.cmd_type as nat) + "\n"@;
    assert(light_block(mac, l) == s10);
    lemma_literals();
    let q = "\"\n"@;
    let n = "\n"@;
    let p1 = "mac = \""@ + mac + q;
    let p2 = "driver = \""@ + l.driver@ + q;
    let p3 = "profile = \""@ + l.profile@ + q;
    let p4 = "universe = "@ + dec(l.universe as nat) + n;
    let p5 = "address = "@ + dec(l.address as nat) + n;
    let p6 = "power_on_connect = "@ + bool_text(l.power_on_connect) + n;
    let p7 = "cct_min = "@ + dec(l.cct_min as nat) + n;
    let p8 = "cct_max = "@ + dec(l.cct_max as nat) + n;
    let p9 = "cmd_type = "@ + dec(l.cmd_type as nat) + n;
    // Each line, in the shortest beginning of the block that holds it.
    lemma_in_the_middle(none, "\n[[lights]]\n"@, "mac = \""@, mac, q, none);
    assert(none + ("\n[[lights]]\n"@ + "mac = \""@) + mac + (q + none) =~= s1);
    lemma_in_the_middle(s2, none, "driver = \""@, l.driver@, q, "profile = \""@);
    assert(none + "driver = \""@ =~= "driver = \""@);
    let s3_front = s2 + "driver = \""@ + l.driver@;
    assert(s3_front + "\"\n"@ + "profile = \""@ =~= s3);
    lemma_in_the_middle(s3_front, q, "profile = \""@, l.profile@, q, "universe = "@);
    let s4_front = s3 + l.profile@;
    lemma_in_the_middle(s4_front, q, "universe = "@, dec(l.universe as nat), n, "address = "@);
    let s5_front = s4 + dec(l.universe as nat);
    lemma_in_the_middle(s5_front, n, "address = "@, dec(l.address as nat), n, "power_on_connect = "@);
    let s6_front = s5 + dec(l.address as nat);
    lemma_in_the_middle(
        s6_front,
        n,
        "power_on_connect = "@,
        bool_text(l.power_on_connect),
        n,
        "cct_min = "@,
    );
    let s7_front = s6 + bool_text(l.power_on_connect);
    lemma_in_the_middle(s7_front, n, "cct_min = "@, dec(l.cct_min as nat), n, "cct_max = "@);
    let s8_front = s7 + dec(l.cct_min as nat);
    lemma_in_the_middle(s8_front, n, "cct_max = "@, dec(l.cct_max as nat), n, "cmd_type = "@);
    let s9_front = s8 + dec(l.cct_max as nat);
    lemma_in_the_middle(s9_front, n, "cmd_type = "@, dec(l.cmd_type as nat), n, none);
    assert(n + none =~= n);
    // And so in the whole of it.
    law_parts_stay(s1, name_line(l.name), p1);
    law_parts_stay(s2, "driver = \""@, p1);
    law_parts_stay(s2 + "driver = \""@, l.driver@, p1);
    law_parts_stay(s2 + "driver = \""@ + l.driver@, "\"\nprofile = \""@, p1);
    law_parts_stay(s3, l.profile@, p1);
    law_parts_stay(s3 + l.profile@, "\"\nuniverse = "@, p1);
    law_parts_stay(s3, l.profile@, p2);
    law_parts_stay(s3 + l.profile@, "\"\nuniverse = "@, p2);
    lemma_from_universe(l, s4, p1);
    lemma_from_universe(l, s4, p2);
    lemma_from_universe(l, s4, p3);
    lemma_from_address(l, s5, p4);
    lemma_from_power(l, s6, p5);
    lemma_from_min(l, s7, p6);
    lemma_from_max(l, s8, p7);
    lemma_from_type(l, s9, p8);
}

/// A name has a line of its own, quoted; a light without one has none.
pub proof fn law_names_have_a_line(l: &LightCfg)
    ensures
        l.name is Some && l.name->0@.len() > 0 ==> name_line(l.name) == "name = \""@ + toml_text(
            l.name->0@,
        ) + "\"\n"@,
        l.name is None || l.name->0@.len() == 0 ==> name_line(l.name).len() == 0,
{
    reveal_strlit("");
}

/// A yes or no is written in full.
pub proof fn law_bools_in_full(b: bool)
    ensures
        bool_text(b) == "true"@ <==> b,
        bool_text(b) == "false"@ <==> !b,
{
    reveal_strlit("true");
    reveal_strlit("false");
    assert("true"@.len() != "false"@.len());
}

/// A text that does not end its last line gets a line break; any other stays as it is.
pub proof fn law_lines_end(text: Seq<char>)
    ensures
        text.len() > 0 && text.last() == '\n' ==> line_ended(text) == text,
        text.len() > 0 && text.last() != '\n' ==> line_ended(text) == text.push('\n'),
        text.len() == 0 ==> line_ended(text).len() == 0,
{
}

} // verus!
