//! What holds of probe texts: what is written in one is what goes on the wire.

use vstd::prelude::*;
use vstd::string::*;
use super::{
    agrees, asked, digits_of_parts, hue_list, hue_palette, kind_called, number, optional_byte, paired,
    set_frames, set_reset, set_steps, set_text, tint, Arg, Kind, SetError, SetModel,
    SetSpec,
};
use crate::commands::probe::preset_data;
use crate::config::hex_digits;
use crate::config::laws::law_digits_of_a_text;
use crate::parse::laws::{
    law_decimals_are_one_field, law_digits_are_numbers, law_joined_fields_read_back,
    law_numbers_read_back, law_signed_numbers,
};
use crate::parse::signed_byte;
use crate::protocol::laws::{holds_mac, low_first, palettes_of};
use crate::text::laws::{
    chained, law_decimals_read_back, law_hex_reads_back, law_pieces_are_parts, nibble,
};
use crate::text::{dec, has_part, hex2, int_dec, is_white, joined, signed_dec, spaced_hex, trimmed};

verus! {

broadcast use vstd::string::group_string_axioms;

/// Words with colons between them.
pub open spec fn text_of(words: Seq<Seq<char>>) -> Seq<char> {
    joined(words, seq![':'])
}

/// A kind of frame is chosen by its own name alone.
pub proof fn law_kind_names(s: Seq<char>)
    ensures
        kind_called(s) == Some(Kind::WarmDim) <==> s == "warmdim"@,
        kind_called(s) == Some(Kind::Cct) <==> s == "cct"@,
        kind_called(s) == Some(Kind::CctGm) <==> s == "cctgm"@,
        kind_called(s) == Some(Kind::Hsi) <==> s == "hsi"@,
        kind_called(s) == Some(Kind::Xy) <==> s == "xy"@,
        kind_called(s) == Some(Kind::XyDirect) <==> s == "xydirect"@,
        kind_called(s) == Some(Kind::FxDirect) <==> s == "fxdirect"@,
        kind_called(s) == Some(Kind::Scene) <==> s == "scene"@,
        kind_called(s) == Some(Kind::Fx) <==> s == "fx"@,
        kind_called(s) == Some(Kind::Pixel) <==> s == "pixel"@,
        kind_called(s) == Some(Kind::PixFx) <==> s == "pixfx"@,
        kind_called(s) == Some(Kind::Rgbcw) <==> s == "rgbcw"@,
        kind_called(s) == Some(Kind::RgbcwMac) <==> s == "rgbcwmac"@,
        kind_called(s) == Some(Kind::Raw) <==> s == "raw"@,
{
    lemma_names();
}

proof fn lemma_names()
    ensures
        "warmdim"@.len() == 7,
        !"warmdim"@.contains(':'),
        "cct"@.len() == 3,
        !"cct"@.contains(':'),
        "cctgm"@.len() == 5,
        !"cctgm"@.contains(':'),
        "hsi"@.len() == 3,
        !"hsi"@.contains(':'),
        "xy"@.len() == 2,
        !"xy"@.contains(':'),
        "xydirect"@.len() == 8,
        !"xydirect"@.contains(':'),
        "fxdirect"@.len() == 8,
        !"fxdirect"@.contains(':'),
        "scene"@.len() == 5,
        !"scene"@.contains(':'),
        "fx"@.len() == 2,
        !"fx"@.contains(':'),
        "pixel"@.len() == 5,
        !"pixel"@.contains(':'),
        "pixfx"@.len() == 5,
        !"pixfx"@.contains(':'),
        "rgbcw"@.len() == 5,
        !"rgbcw"@.contains(':'),
        "rgbcwmac"@.len() == 8,
        !"rgbcwmac"@.contains(':'),
        "raw"@.len() == 3,
        !"raw"@.contains(':'),
        "cct"@[0] == 'c' && "hsi"@[0] == 'h' && "raw"@[0] == 'r',
        "scene"@[0] == 's' && "pixel"@[0] == 'p' && "pixfx"@[0] == 'p' && "rgbcw"@[0] == 'r',
        "cctgm"@[0] == 'c' && "pixel"@[3] == 'e' && "pixfx"@[3] == 'f',
        "xydirect"@[0] == 'x' && "fxdirect"@[0] == 'f' && "rgbcwmac"@[0] == 'r',
        "xy"@[0] == 'x' && "fx"@[0] == 'f',
{
    reveal_strlit("warmdim");
    reveal_strlit("cct");
    reveal_strlit("cctgm");
    reveal_strlit("hsi");
    reveal_strlit("xy");
    reveal_strlit("xydirect");
    reveal_strlit("fxdirect");
    reveal_strlit("scene");
    reveal_strlit("fx");
    reveal_strlit("pixel");
    reveal_strlit("pixfx");
    reveal_strlit("rgbcw");
    reveal_strlit("rgbcwmac");
    reveal_strlit("raw");
}

/// The number at a place of a text: what is written there, where it lies in its range.
/// Each failure is told apart, and names the value.
pub proof fn law_numbers_at_places(
    parts: Seq<Seq<char>>,
    at: int,
    what: Arg,
    lowest: u32,
    highest: u32,
    v: nat,
)
    requires
        0 <= at,
    ensures
        at >= parts.len() ==> number(parts, at, what, lowest, highest) == Err::<u32, SetError>(
            SetError::Missing(what),
        ),
        at < parts.len() && parts[at] == dec(v) && lowest <= v <= highest ==> number(
            parts,
            at,
            what,
            lowest,
            highest,
        ) == Ok::<u32, SetError>(v as u32),
        at < parts.len() && parts[at] == dec(v) && v <= u32::MAX && !(lowest <= v <= highest)
            ==> number(parts, at, what, lowest, highest) == Err::<u32, SetError>(
            SetError::OutOfRange { what, lowest, highest, got: v as u32 },
        ),
        at < parts.len() && (parts[at].len() == 0 || parts[at][0] == 'x') ==> number(
            parts,
            at,
            what,
            lowest,
            highest,
        ) == Err::<u32, SetError>(SetError::NotANumber(what)),
{
    law_numbers_read_back(v, u32::MAX as u64);
    if at < parts.len() {
        law_digits_are_numbers(parts[at]);
    }
}

/// A value that may be left out: the default where it is, else what is written.
pub proof fn law_optional_values(parts: Seq<Seq<char>>, at: int, what: Arg, default: u8, v: u8)
    requires
        0 <= at,
    ensures
        at >= parts.len() ==> optional_byte(parts, at, what, default) == Ok::<u8, SetError>(default),
        at < parts.len() && parts[at] == dec(v as nat) ==> optional_byte(parts, at, what, default)
            == Ok::<u8, SetError>(v),
{
    law_numbers_read_back(v as nat, 255);
}

proof fn lemma_tint_text(gm: i8)
    ensures
        signed_byte(int_dec(gm as int)) == Some(gm),
        !int_dec(gm as int).contains(':'),
{
    let m = (if gm < 0 {
        -(gm as int)
    } else {
        gm as int
    }) as nat;
    law_decimals_are_one_field(m, ':');
    law_numbers_read_back(m, 255);
    law_decimals_read_back(m);
    law_digits_are_numbers(dec(m));
    law_signed_numbers(dec(m), m);
    if gm < 0 {
        let s = seq!['-'] + dec(m);
        if s.contains(':') {
            let i = choose|i: int| 0 <= i < s.len() && s[i] == ':';
            if i > 0 {
                assert(dec(m)[i - 1] == ':');
                assert(dec(m).contains(':'));
            }
        }
    }
}

/// A tint: what is written, from -50 to 50.
pub proof fn law_tints(parts: Seq<Seq<char>>, at: int, gm: i8)
    requires
        0 <= at < parts.len(),
        parts[at] == int_dec(gm as int),
    ensures
        -50 <= gm <= 50 ==> tint(parts, at) == Ok::<i8, SetError>(gm),
        gm < -50 || gm > 50 ==> tint(parts, at) == Err::<i8, SetError>(
            SetError::GmOutOfRange { gm },
        ),
{
    lemma_tint_text(gm);
}

/// `cct:K:B` is white of K kelvin at B percent, where they lie in 0..=25500 and 0..=100.
pub proof fn law_reads_cct(k: nat, b: nat)
    requires
        k <= u32::MAX,
        b <= u32::MAX,
    ensures
        ({
            let set = asked(text_of(seq!["cct"@, dec(k), dec(b)]));
            &&& k <= 25500 && b <= 100 ==> set == Ok::<SetModel, SetError>(
                SetModel::Cct { kelvin: k as u32, bri: b as u8 },
            )
            &&& k > 25500 || b > 100 ==> set is Err
        }),
{
    let p = seq!["cct"@, dec(k), dec(b)];
    lemma_names();
    law_kind_names(p[0]);
    law_decimals_are_one_field(k, ':');
    law_decimals_are_one_field(b, ':');
    law_joined_fields_read_back(p, ':');
    law_numbers_at_places(p, 1, Arg::Kelvin, 0, 25500, k);
    law_numbers_at_places(p, 2, Arg::Bri, 0, 100, b);
}

/// `cctgm:K:G:B` is white with a tint of G; a fourth value of 3 or 5 asks for that form,
/// and anything else for the one of 4.
pub proof fn law_reads_cctgm(k: nat, gm: i8, b: nat, form: nat)
    requires
        k <= u32::MAX,
        b <= u32::MAX,
    ensures
        ({
            let set = asked(text_of(seq!["cctgm"@, dec(k), int_dec(gm as int), dec(b), dec(form)]));
            let ok = k <= 25500 && b <= 100 && -50 <= gm <= 50;
            &&& ok ==> set == Ok::<SetModel, SetError>(
                SetModel::CctGm {
                    kelvin: k as u32,
                    gm,
                    bri: b as u8,
                    form: if form == 3 {
                        3
                    } else if form == 5 {
                        5
                    } else {
                        4
                    },
                },
            )
            &&& !ok ==> set is Err
        }),
        ({
            let set = asked(text_of(seq!["cctgm"@, dec(k), int_dec(gm as int), dec(b)]));
            let ok = k <= 25500 && b <= 100 && -50 <= gm <= 50;
            &&& ok ==> set == Ok::<SetModel, SetError>(
                SetModel::CctGm { kelvin: k as u32, gm, bri: b as u8, form: 4 },
            )
            &&& !ok ==> set is Err
        }),
{
    let p = seq!["cctgm"@, dec(k), int_dec(gm as int), dec(b), dec(form)];
    let q = seq!["cctgm"@, dec(k), int_dec(gm as int), dec(b)];
    lemma_names();
    law_kind_names(p[0]);
    law_decimals_are_one_field(k, ':');
    law_decimals_are_one_field(b, ':');
    law_decimals_are_one_field(form, ':');
    lemma_tint_text(gm);
    law_joined_fields_read_back(p, ':');
    law_joined_fields_read_back(q, ':');
    law_numbers_at_places(p, 1, Arg::Kelvin, 0, 25500, k);
    law_numbers_at_places(p, 3, Arg::Bri, 0, 100, b);
    law_numbers_at_places(q, 1, Arg::Kelvin, 0, 25500, k);
    law_numbers_at_places(q, 3, Arg::Bri, 0, 100, b);
    law_tints(p, 2, gm);
    law_tints(q, 2, gm);
    reveal_strlit("3");
    reveal_strlit("5");
    assert("3"@ =~= dec(3));
    assert("5"@ =~= dec(5));
    if dec(form) == "3"@ {
        crate::text::laws::law_decimals_differ(form, 3);
    }
    if dec(form) == "5"@ {
        crate::text::laws::law_decimals_differ(form, 5);
    }
}

/// `hsi:H:S:B` is the colour of hue H and saturation S at B percent.
pub proof fn law_reads_hsi(h: nat, s: nat, b: nat)
    requires
        h <= u32::MAX,
        s <= u32::MAX,
        b <= u32::MAX,
    ensures
        ({
            let set = asked(text_of(seq!["hsi"@, dec(h), dec(s), dec(b)]));
            let ok = h <= 360 && s <= 100 && b <= 100;
            &&& ok ==> set == Ok::<SetModel, SetError>(
                SetModel::Hsi { hue: h as u16, sat: s as u8, bri: b as u8 },
            )
            &&& !ok ==> set is Err
        }),
{
    let p = seq!["hsi"@, dec(h), dec(s), dec(b)];
    lemma_names();
    law_kind_names(p[0]);
    law_decimals_are_one_field(h, ':');
    law_decimals_are_one_field(s, ':');
    law_decimals_are_one_field(b, ':');
    law_joined_fields_read_back(p, ':');
    law_numbers_at_places(p, 1, Arg::Hue, 0, 360, h);
    law_numbers_at_places(p, 2, Arg::Sat, 0, 100, s);
    law_numbers_at_places(p, 3, Arg::Bri, 0, 100, b);
}

/// `xy:X:Y:B` is a CIE coordinate in its MAC-embedded form, `xydirect:X:Y:B` in the
/// direct one.
pub proof fn law_reads_xy(x: nat, y: nat, b: nat, by_mac: bool)
    requires
        x <= u32::MAX,
        y <= u32::MAX,
        b <= u32::MAX,
    ensures
        ({
            let word = if by_mac {
                "xy"@
            } else {
                "xydirect"@
            };
            let set = asked(text_of(seq![word, dec(x), dec(y), dec(b)]));
            let ok = x <= 8000 && y <= 8000 && b <= 100;
            &&& ok ==> set == Ok::<SetModel, SetError>(
                SetModel::Xy { by_mac, x: x as u16, y: y as u16, bri: b as u8 },
            )
            &&& !ok ==> set is Err
        }),
{
    let word = if by_mac {
        "xy"@
    } else {
        "xydirect"@
    };
    let p = seq![word, dec(x), dec(y), dec(b)];
    lemma_names();
    law_kind_names(p[0]);
    law_decimals_are_one_field(x, ':');
    law_decimals_are_one_field(y, ':');
    law_decimals_are_one_field(b, ':');
    law_joined_fields_read_back(p, ':');
    law_numbers_at_places(p, 1, Arg::X, 0, 8000, x);
    law_numbers_at_places(p, 2, Arg::Y, 0, 8000, y);
    law_numbers_at_places(p, 3, Arg::Bri, 0, 100, b);
}

/// `fx:I:B` is effect I of 18 in its MAC-embedded form, `fxdirect:I:B` in the direct one.
pub proof fn law_reads_fx(id: nat, b: nat, by_mac: bool)
    requires
        id <= u32::MAX,
        b <= u32::MAX,
    ensures
        ({
            let word = if by_mac {
                "fx"@
            } else {
                "fxdirect"@
            };
            let set = asked(text_of(seq![word, dec(id), dec(b)]));
            let ok = 1 <= id <= 18 && b <= 100;
            &&& ok ==> set == Ok::<SetModel, SetError>(
                SetModel::Fx { by_mac, id: id as u8, bri: b as u8 },
            )
            &&& !ok ==> set is Err
        }),
{
    let word = if by_mac {
        "fx"@
    } else {
        "fxdirect"@
    };
    let p = seq![word, dec(id), dec(b)];
    lemma_names();
    law_kind_names(p[0]);
    law_decimals_are_one_field(id, ':');
    law_decimals_are_one_field(b, ':');
    law_joined_fields_read_back(p, ':');
    law_numbers_at_places(p, 1, Arg::Id, 1, 18, id);
    law_numbers_at_places(p, 2, Arg::Bri, 0, 100, b);
}

/// `scene:I:B` is scene I of 9, and `pixfx:I` pixel effect I of 10.
pub proof fn law_reads_scenes(id: nat, b: nat)
    requires
        id <= u32::MAX,
        b <= u32::MAX,
    ensures
        ({
            let set = asked(text_of(seq!["scene"@, dec(id), dec(b)]));
            let ok = 1 <= id <= 9 && b <= 100;
            &&& ok ==> set == Ok::<SetModel, SetError>(
                SetModel::Scene { id: id as u8, bri: b as u8 },
            )
            &&& !ok ==> set is Err
        }),
        ({
            let set = asked(text_of(seq!["pixfx"@, dec(id)]));
            &&& 1 <= id <= 10 ==> set == Ok::<SetModel, SetError>(
                SetModel::PixelEffect { id: id as u8 },
            )
            &&& !(1 <= id <= 10) ==> set is Err
        }),
        asked("warmdim"@) == Ok::<SetModel, SetError>(SetModel::WarmDim),
{
    let p = seq!["scene"@, dec(id), dec(b)];
    let q = seq!["pixfx"@, dec(id)];
    let w = seq!["warmdim"@];
    lemma_names();
    law_kind_names(p[0]);
    law_kind_names(q[0]);
    law_kind_names(w[0]);
    law_decimals_are_one_field(id, ':');
    law_decimals_are_one_field(b, ':');
    law_joined_fields_read_back(p, ':');
    law_joined_fields_read_back(q, ':');
    law_joined_fields_read_back(w, ':');
    law_numbers_at_places(p, 1, Arg::Id, 1, 9, id);
    law_numbers_at_places(p, 2, Arg::Bri, 0, 100, b);
    law_numbers_at_places(q, 1, Arg::Effect, 1, 10, id);
}

/// `rgbcw:R:G:B:C:W:L` sets the LED banks to these values, red, green, blue, cool white,
/// warm white, at L percent, in the direct form; `rgbcwmac` in the MAC-embedded one. The
/// last three may be left out, which means no white, and full brightness.
pub proof fn law_reads_rgbcw(r: u8, g: u8, b: u8, cw: u8, ww: u8, bri: u8, by_mac: bool)
    ensures
        ({
            let word = if by_mac {
                "rgbcwmac"@
            } else {
                "rgbcw"@
            };
            let set = asked(
                text_of(
                    seq![
                        word,
                        dec(r as nat),
                        dec(g as nat),
                        dec(b as nat),
                        dec(cw as nat),
                        dec(ww as nat),
                        dec(bri as nat),
                    ],
                ),
            );
            let short = asked(text_of(seq![word, dec(r as nat), dec(g as nat), dec(b as nat)]));
            &&& bri <= 100 ==> set == Ok::<SetModel, SetError>(
                SetModel::Rgbcw { by_mac, r, g, b, cw, ww, bri },
            )
            &&& bri > 100 ==> set is Err
            &&& short == Ok::<SetModel, SetError>(
                SetModel::Rgbcw { by_mac, r, g, b, cw: 0, ww: 0, bri: 100 },
            )
        }),
{
    let word = if by_mac {
        "rgbcwmac"@
    } else {
        "rgbcw"@
    };
    let p = seq![
        word,
        dec(r as nat),
        dec(g as nat),
        dec(b as nat),
        dec(cw as nat),
        dec(ww as nat),
        dec(bri as nat),
    ];
    let q = seq![word, dec(r as nat), dec(g as nat), dec(b as nat)];
    lemma_names();
    law_kind_names(word);
    law_decimals_are_one_field(r as nat, ':');
    law_decimals_are_one_field(g as nat, ':');
    law_decimals_are_one_field(b as nat, ':');
    law_decimals_are_one_field(cw as nat, ':');
    law_decimals_are_one_field(ww as nat, ':');
    law_decimals_are_one_field(bri as nat, ':');
    law_joined_fields_read_back(p, ':');
    law_joined_fields_read_back(q, ':');
    law_numbers_at_places(p, 1, Arg::Red, 0, 255, r as nat);
    law_numbers_at_places(p, 2, Arg::Green, 0, 255, g as nat);
    law_numbers_at_places(p, 3, Arg::Blue, 0, 255, b as nat);
    law_optional_values(p, 4, Arg::CoolWhite, 0, cw);
    law_optional_values(p, 5, Arg::WarmWhite, 0, ww);
    law_optional_values(p, 6, Arg::Bri, 100, bri);
    law_numbers_at_places(q, 1, Arg::Red, 0, 255, r as nat);
    law_numbers_at_places(q, 2, Arg::Green, 0, 255, g as nat);
    law_numbers_at_places(q, 3, Arg::Blue, 0, 255, b as nat);
}

/// The hues of a palette in decimal.
pub open spec fn hue_words(hues: Seq<u16>) -> Seq<Seq<char>> {
    Seq::new(hues.len(), |i: int| dec(hues[i] as nat))
}

proof fn lemma_hues_read_back(hues: Seq<u16>)
    requires
        forall|i: int| 0 <= i < hues.len() ==> #[trigger] hues[i] <= 360,
    ensures
        hue_list(hue_words(hues)) == Ok::<Seq<u16>, SetError>(hues),
    decreases hues.len(),
{
    let w = hue_words(hues);
    if hues.len() > 0 {
        let init = hues.drop_last();
        assert(w.drop_last() =~= hue_words(init));
        assert forall|i: int| 0 <= i < init.len() implies #[trigger] init[i] <= 360 by {
            assert(init[i] == hues[i]);
        }
        lemma_hues_read_back(init);
        let h = hues[hues.len() - 1] as nat;
        law_decimals_read_back(h);
        assert(!is_white(dec(h)[0]) && !is_white(dec(h).last())) by {
            assert('0' <= dec(h)[0] <= '9');
            assert('0' <= dec(h)[dec(h).len() - 1] <= '9');
        }
        assert(trimmed(w.last()) == dec(h));
        law_numbers_read_back(h, 65535);
        assert(init.push(hues.last()) =~= hues);
    } else {
        assert(hues =~= Seq::<u16>::empty());
    }
}

/// `pixel:H,H,..:E:S` is a palette of these hues, in order, with effect E of 10 at speed
/// S.
pub proof fn law_reads_pixel(hues: Seq<u16>, effect: nat, speed: nat)
    requires
        hues.len() > 0,
        forall|i: int| 0 <= i < hues.len() ==> #[trigger] hues[i] <= 360,
        effect <= u32::MAX,
        speed <= u32::MAX,
    ensures
        ({
            let palette = joined(hue_words(hues), seq![',']);
            let set = asked(text_of(seq!["pixel"@, palette, dec(effect), dec(speed)]));
            let ok = 1 <= effect <= 10 && speed <= 100;
            &&& ok ==> set == Ok::<SetModel, SetError>(
                SetModel::Pixel { hues, effect: effect as u8, speed: speed as u8 },
            )
            &&& !ok ==> set is Err
        }),
{
    let words = hue_words(hues);
    let palette = joined(words, seq![',']);
    let p = seq!["pixel"@, palette, dec(effect), dec(speed)];
    lemma_names();
    law_kind_names(p[0]);
    law_decimals_are_one_field(effect, ':');
    law_decimals_are_one_field(speed, ':');
    assert forall|k: int| 0 <= k < words.len() implies !(#[trigger] words[k]).contains(',')
        && !words[k].contains(':') by {
        law_decimals_are_one_field(hues[k] as nat, ',');
        law_decimals_are_one_field(hues[k] as nat, ':');
    }
    law_joined_fields_read_back(words, ',');
    lemma_joined_without(words, ',', ':');
    law_joined_fields_read_back(p, ':');
    lemma_hues_read_back(hues);
    law_numbers_at_places(p, 2, Arg::Effect, 1, 10, effect);
    law_numbers_at_places(p, 3, Arg::Speed, 0, 100, speed);
}

proof fn lemma_joined_without(words: Seq<Seq<char>>, sep: char, c: char)
    requires
        sep != c,
        forall|k: int| 0 <= k < words.len() ==> !(#[trigger] words[k]).contains(c),
    ensures
        !joined(words, seq![sep]).contains(c),
    decreases words.len(),
{
    let s = joined(words, seq![sep]);
    if words.len() == 1 {
        assert(!words[0].contains(c));
    } else if words.len() > 1 {
        let init = words.drop_last();
        assert forall|k: int| 0 <= k < init.len() implies !(#[trigger] init[k]).contains(c) by {
            assert(init[k] == words[k]);
        }
        lemma_joined_without(init, sep, c);
        let front = joined(init, seq![sep]);
        assert(!words[words.len() - 1].contains(c));
        if s.contains(c) {
            let i = choose|i: int| 0 <= i < s.len() && s[i] == c;
            if i < front.len() {
                assert(front[i] == c);
                assert(front.contains(c));
            } else if i > front.len() {
                assert(words.last()[i - front.len() - 1] == c);
                assert(words.last().contains(c));
            }
        }
    }
}

proof fn lemma_spaced_digits(bytes: Seq<u8>, up: bool)
    ensures
        hex_digits(spaced_hex(bytes, up)).len() == 2 * bytes.len(),
        forall|i: int|
            0 <= i < bytes.len() ==> hex_digits(spaced_hex(bytes, up))[2 * i] == bytes[i] / 16
                && hex_digits(spaced_hex(bytes, up))[2 * i + 1] == #[trigger] bytes[i] % 16,
        !spaced_hex(bytes, up).contains(':'),
    decreases bytes.len(),
{
    let s = spaced_hex(bytes, up);
    if bytes.len() > 0 {
        let b = bytes.last();
        law_hex_reads_back(b, up);
        let h = hex2(b, up);
        let (x, y) = (h[0], h[1]);
        assert(0 <= nibble(x) < 16 && 0 <= nibble(y) < 16);
        assert(nibble(x) == b / 16 && nibble(y) == b % 16);
        let init = bytes.drop_last();
        lemma_spaced_digits(init, up);
        let front = if bytes.len() == 1 {
            Seq::<char>::empty()
        } else {
            spaced_hex(init, up).push(' ')
        };
        assert(s =~= front.push(x).push(y));
        law_digits_of_a_text(spaced_hex(init, up), ' ');
        law_digits_of_a_text(front, x);
        law_digits_of_a_text(front.push(x), y);
        let d = hex_digits(s);
        let e = hex_digits(front);
        assert(e.len() == 2 * init.len());
        assert(d.drop_last().drop_last() =~= e);
        assert forall|i: int| 0 <= i < bytes.len() implies d[2 * i] == bytes[i] / 16 && d[2 * i + 1]
            == #[trigger] bytes[i] % 16 by {
            if i < init.len() {
                assert(init[i] == bytes[i]);
                assert(d.drop_last().drop_last()[2 * i] == e[2 * i]);
                assert(d.drop_last().drop_last()[2 * i + 1] == e[2 * i + 1]);
            } else {
                assert(d.drop_last()[2 * i] == nibble(x));
            }
        }
        assert(!s.contains(':')) by {
            if s.contains(':') {
                let i = choose|i: int| 0 <= i < s.len() && s[i] == ':';
                if i < front.len() {
                    if i < spaced_hex(init, up).len() {
                        assert(spaced_hex(init, up)[i] == ':');
                        assert(spaced_hex(init, up).contains(':'));
                    }
                }
            }
        }
    }
}

/// `raw:..` is the frame of the bytes written behind it in hexadecimal.
pub proof fn law_reads_raw(bytes: Seq<u8>, up: bool)
    ensures
        ({
            let set = asked(text_of(seq!["raw"@, spaced_hex(bytes, up)]));
            &&& bytes.len() > 0 ==> set == Ok::<SetModel, SetError>(SetModel::Raw { bytes })
            &&& bytes.len() == 0 ==> set == Err::<SetModel, SetError>(SetError::BadRaw)
        }),
{
    let p = seq!["raw"@, spaced_hex(bytes, up)];
    lemma_names();
    law_kind_names(p[0]);
    lemma_spaced_digits(bytes, up);
    law_joined_fields_read_back(p, ':');
    let d = hex_digits(spaced_hex(bytes, up));
    reveal_with_fuel(digits_of_parts, 3);
    assert(digits_of_parts(p, 1) =~= d);
    assert(paired(d) =~= bytes) by {
        assert forall|i: int| 0 <= i < bytes.len() implies #[trigger] paired(d)[i] == bytes[i] by {
            assert(d[2 * i] == bytes[i] / 16 && d[2 * i + 1] == bytes[i] % 16);
        }
    }
}

/// A probe's values on the wire, where the lights read them.
pub proof fn law_probe_frames(mac: Seq<u8>, set: SetModel)
    requires
        mac.len() == 6,
    ensures
        ({
            let f = set_frames(mac, set)[0];
            match set {
                SetModel::WarmDim => {
                    &&& f.len() == 8 && f[0] == 0x78 && f[1] == 0x87 && f[2] == 4
                    &&& f[3] == 12 && f[4] == 27 && f[5] == 50 && f[6] == 0
                },
                SetModel::Cct { kelvin, bri } => kelvin <= 25500 ==> {
                    &&& f.len() == 6 && f[0] == 0x78 && f[1] == 0x87 && f[2] == 2
                    &&& f[3] == bri
                    &&& f[4] * 100 <= kelvin < f[4] * 100 + 100
                },
                SetModel::CctGm { kelvin, gm, bri, form } => kelvin <= 25500 && -50 <= gm <= 50 && 3
                    <= form <= 5 ==> {
                    &&& f.len() == form + 4 && f[0] == 0x78 && f[1] == 0x87 && f[2] == form
                    &&& f[3] == bri
                    &&& f[4] * 100 <= kelvin < f[4] * 100 + 100
                    &&& f[5] == gm + 50
                },
                SetModel::Hsi { hue, sat, bri } => {
                    &&& f.len() == 8 && f[0] == 0x78 && f[1] == 0x86 && f[2] == 4
                    &&& low_first(f, 3) == hue
                    &&& f[5] == sat
                    &&& f[6] == bri
                },
                SetModel::Xy { by_mac, x, y, bri } => {
                    &&& by_mac ==> {
                        &&& f.len() == 16 && f[0] == 0x78 && f[1] == 0xB7 && f[2] == 12
                        &&& holds_mac(f, 3, mac)
                        &&& f[9] == bri
                        &&& low_first(f, 10) == x
                        &&& low_first(f, 12) == y
                        &&& f[14] == 0
                    }
                    &&& !by_mac ==> {
                        &&& f.len() == 10 && f[0] == 0x78 && f[1] == 0xB9 && f[2] == 6
                        &&& f[3] == bri
                        &&& low_first(f, 4) == x
                        &&& low_first(f, 6) == y
                        &&& f[8] == 0
                    }
                },
                SetModel::Scene { id, bri } => {
                    &&& f.len() == 6 && f[0] == 0x78 && f[1] == 0x88 && f[2] == 2
                    &&& f[3] == bri
                    &&& f[4] == id
                },
                SetModel::Rgbcw { by_mac, r, g, b, cw, ww, bri } => {
                    &&& by_mac ==> {
                        &&& f.len() == 18 && f[0] == 0x78 && f[1] == 0xA9 && f[2] == 14
                        &&& holds_mac(f, 3, mac)
                        &&& f[9] == 0xA8 && f[10] == bri
                        &&& f[11] == r && f[12] == g && f[13] == b && f[14] == cw && f[15] == ww
                        &&& f[16] == 0
                    }
                    &&& !by_mac ==> {
                        &&& f.len() == 11 && f[0] == 0x78 && f[1] == 0xA8 && f[2] == 7
                        &&& f[3] == bri
                        &&& f[4] == r && f[5] == g && f[6] == b && f[7] == cw && f[8] == ww
                        &&& f[9] == 0
                    }
                },
                SetModel::Fx { by_mac, id, bri } => {
                    let data = preset_data(id, bri);
                    &&& by_mac ==> f[0] == 0x78 && f[1] == 0x91 && f[2] == data.len() + 7 && f[9]
                        == 0x8B && f[10] == data[0] && f[11] == data[1]
                    &&& !by_mac ==> f[0] == 0x78 && f[1] == 0x8B && f[2] == data.len() && f[3]
                        == data[0] && f[4] == data[1]
                },
                SetModel::Raw { bytes } => f == bytes,
                _ => true,
            }
        }),
        !(set is Pixel) && !(set is PixelEffect) ==> set_frames(mac, set).len() == 1,
        set_reset(set) <==> !(set is WarmDim || set is Cct || set is CctGm || set is Raw),
{
}

/// A palette on the wire: hue `k` stands, fully saturated, at bytes `3 * k` of the joined
/// palettes.
pub proof fn law_probe_palettes(mac: Seq<u8>, hues: Seq<u16>, effect: u8, speed: u8, k: int)
    requires
        mac.len() == 6,
        0 <= k < hues.len() <= 8,
        hues[k] < 360,
        effect != 3 && effect != 4 && effect != 5 && effect != 7,
    ensures
        ({
            let fs = set_frames(mac, SetModel::Pixel { hues, effect, speed });
            let sent = palettes_of(fs);
            &&& sent.len() == 3 * hues.len()
            &&& (sent[3 * k] - 0x10) * 256 + sent[3 * k + 1] == hues[k]
            &&& sent[3 * k + 2] == 100
            &&& fs[0][11] == 100
            &&& fs[0][13] == speed
            &&& fs[0][14] == 1
        }),
{
    let blocks = hue_palette(hues);
    crate::protocol::laws::law_colour_replacement_sends_every_block(
        mac,
        blocks,
        100,
        effect,
        speed,
        1,
        k,
    );
    crate::protocol::laws::law_rendering_parameters(mac, blocks, 100, effect, speed, 1);
    crate::protocol::laws::law_blocks_read_back(hues[k], 100, 0, 0);
    assert(hues[k] as int % 360 == hues[k]);
}

/// A plan is held: a known white first where it is asked for, then its frames four times
/// over, 80 ms between two and a second more between two rounds.
pub proof fn law_plans_are_held(frames: Seq<Seq<u8>>, reset: bool, round: int, i: int)
    requires
        0 <= round < 4,
        0 <= i < frames.len(),
    ensures
        ({
            let steps = set_steps(frames, reset);
            let first = if reset {
                1int
            } else {
                0int
            };
            let at = first + round * frames.len() + i;
            &&& steps.len() == first + 4 * frames.len()
            &&& 0 <= at < steps.len()
            &&& steps[at].frame == frames[i]
            &&& steps[at].chunked
            &&& i < frames.len() - 1 ==> steps[at].pause_ms == 80
            &&& i == frames.len() - 1 && round < 3 ==> steps[at].pause_ms == 1080
            &&& i == frames.len() - 1 && round == 3 ==> steps[at].pause_ms == 80
            &&& reset ==> {
                let f = steps[0].frame;
                &&& !steps[0].chunked && steps[0].pause_ms == 900
                &&& f.len() == 8 && f[0] == 0x78 && f[1] == 0x87 && f[2] == 4
                &&& f[3] == 50 && f[4] == 56 && f[5] == 50 && f[6] == 0
            }
        }),
{
    let n = frames.len() as int;
    if round == 0 {
        assert(round * n == 0) by (nonlinear_arith)
            requires
                round == 0,
        ;
    } else if round == 1 {
        assert(round * n == n) by (nonlinear_arith)
            requires
                round == 1,
        ;
    } else if round == 2 {
        assert(round * n == n + n) by (nonlinear_arith)
            requires
                round == 2,
        ;
    } else {
        assert(round * n == n + n + n) by (nonlinear_arith)
            requires
                round == 3,
        ;
    }
}

/// The report of a white says its kelvin and its brightness.
pub proof fn law_reports_white(kelvin: u32, bri: u8)
    ensures
        has_part(set_text(SetModel::Cct { kelvin, bri }), "CCT "@ + dec(kelvin as nat) + "K @ "@),
        has_part(set_text(SetModel::Cct { kelvin, bri }), "K @ "@ + dec(bri as nat) + "%"@),
{
    let p = seq![
        "CCT "@,
        dec(kelvin as nat),
        "K @ "@,
        dec(bri as nat),
        "%"@,
    ];
    reveal_with_fuel(chained, 6);
    assert(set_text(SetModel::Cct { kelvin, bri }) =~= chained(p, 5));
    law_pieces_are_parts(p, 5, 0);
    law_pieces_are_parts(p, 5, 2);
}

/// The report of a tinted white says its form, its kelvin, its tint and its brightness.
pub proof fn law_reports_tint(kelvin: u32, gm: i8, bri: u8, form: u8)
    ensures
        has_part(
            set_text(SetModel::CctGm { kelvin, gm, bri, form }),
            "CCT"@ + dec(form as nat) + " "@,
        ),
        has_part(
            set_text(SetModel::CctGm { kelvin, gm, bri, form }),
            " "@ + dec(kelvin as nat) + "K gm"@,
        ),
        has_part(
            set_text(SetModel::CctGm { kelvin, gm, bri, form }),
            "K gm"@ + signed_dec(gm as int) + " @ "@,
        ),
        has_part(
            set_text(SetModel::CctGm { kelvin, gm, bri, form }),
            " @ "@ + dec(bri as nat) + "%"@,
        ),
{
    let p = seq![
        "CCT"@,
        dec(form as nat),
        " "@,
        dec(kelvin as nat),
        "K gm"@,
        signed_dec(gm as int),
        " @ "@,
        dec(bri as nat),
        "%"@,
    ];
    reveal_with_fuel(chained, 10);
    assert(set_text(SetModel::CctGm { kelvin, gm, bri, form }) =~= chained(p, 9));
    law_pieces_are_parts(p, 9, 0);
    law_pieces_are_parts(p, 9, 2);
    law_pieces_are_parts(p, 9, 4);
    law_pieces_are_parts(p, 9, 6);
}

/// The report of a colour says its hue, its saturation and its brightness.
pub proof fn law_reports_colour(hue: u16, sat: u8, bri: u8)
    ensures
        has_part(
            set_text(SetModel::Hsi { hue, sat, bri }),
            "HSI hue="@ + dec(hue as nat) + " sat="@,
        ),
        has_part(set_text(SetModel::Hsi { hue, sat, bri }), " sat="@ + dec(sat as nat) + " @ "@),
        has_part(set_text(SetModel::Hsi { hue, sat, bri }), " @ "@ + dec(bri as nat) + "%"@),
{
    let p = seq![
        "HSI hue="@,
        dec(hue as nat),
        " sat="@,
        dec(sat as nat),
        " @ "@,
        dec(bri as nat),
        "%"@,
    ];
    reveal_with_fuel(chained, 8);
    assert(set_text(SetModel::Hsi { hue, sat, bri }) =~= chained(p, 7));
    law_pieces_are_parts(p, 7, 0);
    law_pieces_are_parts(p, 7, 2);
    law_pieces_are_parts(p, 7, 4);
}

/// The report of a coordinate says x, y and the brightness.
pub proof fn law_reports_xy(x: u16, y: u16, bri: u8)
    ensures
        has_part(
            set_text(SetModel::Xy { by_mac: true, x, y, bri }),
            "XY by-MAC 0xB7 x="@ + dec(x as nat) + " y="@,
        ),
        has_part(
            set_text(SetModel::Xy { by_mac: true, x, y, bri }),
            " y="@ + dec(y as nat) + " @ "@,
        ),
        has_part(
            set_text(SetModel::Xy { by_mac: true, x, y, bri }),
            " @ "@ + dec(bri as nat) + "%"@,
        ),
{
    let p = seq![
        "XY by-MAC 0xB7 x="@,
        dec(x as nat),
        " y="@,
        dec(y as nat),
        " @ "@,
        dec(bri as nat),
        "%"@,
    ];
    reveal_with_fuel(chained, 8);
    assert(set_text(SetModel::Xy { by_mac: true, x, y, bri }) =~= chained(p, 7));
    law_pieces_are_parts(p, 7, 0);
    law_pieces_are_parts(p, 7, 2);
    law_pieces_are_parts(p, 7, 4);
}

/// So does that of its direct form.
pub proof fn law_reports_xy_direct(x: u16, y: u16, bri: u8)
    ensures
        has_part(
            set_text(SetModel::Xy { by_mac: false, x, y, bri }),
            "XY direct 0xB9 x="@ + dec(x as nat) + " y="@,
        ),
        has_part(
            set_text(SetModel::Xy { by_mac: false, x, y, bri }),
            " y="@ + dec(y as nat) + " @ "@,
        ),
        has_part(
            set_text(SetModel::Xy { by_mac: false, x, y, bri }),
            " @ "@ + dec(bri as nat) + "%"@,
        ),
{
    let p = seq![
        "XY direct 0xB9 x="@,
        dec(x as nat),
        " y="@,
        dec(y as nat),
        " @ "@,
        dec(bri as nat),
        "%"@,
    ];
    reveal_with_fuel(chained, 8);
    assert(set_text(SetModel::Xy { by_mac: false, x, y, bri }) =~= chained(p, 7));
    law_pieces_are_parts(p, 7, 0);
    law_pieces_are_parts(p, 7, 2);
    law_pieces_are_parts(p, 7, 4);
}

/// The report of an effect says its id and its brightness.
pub proof fn law_reports_effect(id: u8, bri: u8)
    ensures
        has_part(
            set_text(SetModel::Fx { by_mac: true, id, bri }),
            "FX #"@ + dec(id as nat) + " @ "@,
        ),
        has_part(set_text(SetModel::Fx { by_mac: true, id, bri }), " @ "@ + dec(bri as nat) + "%"@),
{
    let p = seq![
        "FX #"@,
        dec(id as nat),
        " @ "@,
        dec(bri as nat),
        "%"@,
    ];
    reveal_with_fuel(chained, 6);
    assert(set_text(SetModel::Fx { by_mac: true, id, bri }) =~= chained(p, 5));
    law_pieces_are_parts(p, 5, 0);
    law_pieces_are_parts(p, 5, 2);
}

/// So does that of its direct form.
pub proof fn law_reports_effect_direct(id: u8, bri: u8)
    ensures
        has_part(
            set_text(SetModel::Fx { by_mac: false, id, bri }),
            "FX direct 0x8B #"@ + dec(id as nat) + " @ "@,
        ),
        has_part(
            set_text(SetModel::Fx { by_mac: false, id, bri }),
            " @ "@ + dec(bri as nat) + "%"@,
        ),
{
    let p = seq![
        "FX direct 0x8B #"@,
        dec(id as nat),
        " @ "@,
        dec(bri as nat),
        "%"@,
    ];
    reveal_with_fuel(chained, 6);
    assert(set_text(SetModel::Fx { by_mac: false, id, bri }) =~= chained(p, 5));
    law_pieces_are_parts(p, 5, 0);
    law_pieces_are_parts(p, 5, 2);
}

/// The report of a scene says its id and its brightness.
pub proof fn law_reports_scene(id: u8, bri: u8)
    ensures
        has_part(set_text(SetModel::Scene { id, bri }), "SCENE 0x88 #"@ + dec(id as nat) + " @ "@),
        has_part(set_text(SetModel::Scene { id, bri }), " @ "@ + dec(bri as nat) + "%"@),
{
    let p = seq![
        "SCENE 0x88 #"@,
        dec(id as nat),
        " @ "@,
        dec(bri as nat),
        "%"@,
    ];
    reveal_with_fuel(chained, 6);
    assert(set_text(SetModel::Scene { id, bri }) =~= chained(p, 5));
    law_pieces_are_parts(p, 5, 0);
    law_pieces_are_parts(p, 5, 2);
}

/// The report of LED channels says each of them and the brightness.
#[verifier::rlimit(50)]
pub proof fn law_reports_leds(r: u8, g: u8, b: u8, cw: u8, ww: u8, bri: u8)
    ensures
        has_part(
            set_text(SetModel::Rgbcw { by_mac: true, r, g, b, cw, ww, bri }),
            "RGBCW by-MAC 0xA9 (production form — should render): R="@ + dec(r as nat) + " G="@,
        ),
        has_part(
            set_text(SetModel::Rgbcw { by_mac: true, r, g, b, cw, ww, bri }),
            " G="@ + dec(g as nat) + " B="@,
        ),
        has_part(
            set_text(SetModel::Rgbcw { by_mac: true, r, g, b, cw, ww, bri }),
            " B="@ + dec(b as nat) + " CW="@,
        ),
        has_part(
            set_text(SetModel::Rgbcw { by_mac: true, r, g, b, cw, ww, bri }),
            " CW="@ + dec(cw as nat) + " WW="@,
        ),
        has_part(
            set_text(SetModel::Rgbcw { by_mac: true, r, g, b, cw, ww, bri }),
            " WW="@ + dec(ww as nat) + " @ "@,
        ),
        has_part(
            set_text(SetModel::Rgbcw { by_mac: true, r, g, b, cw, ww, bri }),
            " @ "@ + dec(bri as nat) + "%"@,
        ),
{
    let p = seq![
        "RGBCW by-MAC 0xA9 (production form — should render): R="@,
        dec(r as nat),
        " G="@,
        dec(g as nat),
        " B="@,
        dec(b as nat),
        " CW="@,
        dec(cw as nat),
        " WW="@,
        dec(ww as nat),
        " @ "@,
        dec(bri as nat),
        "%"@,
    ];
    reveal_with_fuel(chained, 14);
    assert(set_text(SetModel::Rgbcw { by_mac: true, r, g, b, cw, ww, bri }) =~= chained(p, 13));
    law_pieces_are_parts(p, 13, 0);
    law_pieces_are_parts(p, 13, 2);
    law_pieces_are_parts(p, 13, 4);
    law_pieces_are_parts(p, 13, 6);
    law_pieces_are_parts(p, 13, 8);
    law_pieces_are_parts(p, 13, 10);
}

/// So does that of their direct form.
#[verifier::rlimit(50)]
pub proof fn law_reports_leds_direct(r: u8, g: u8, b: u8, cw: u8, ww: u8, bri: u8)
    ensures
        has_part(
            set_text(SetModel::Rgbcw { by_mac: false, r, g, b, cw, ww, bri }),
            "RGBCW direct 0xA8 (ignored on TL120C — should stay white): R="@ + dec(r as nat)
                + " G="@,
        ),
        has_part(
            set_text(SetModel::Rgbcw { by_mac: false, r, g, b, cw, ww, bri }),
            " G="@ + dec(g as nat) + " B="@,
        ),
        has_part(
            set_text(SetModel::Rgbcw { by_mac: false, r, g, b, cw, ww, bri }),
            " B="@ + dec(b as nat) + " CW="@,
        ),
        has_part(
            set_text(SetModel::Rgbcw { by_mac: false, r, g, b, cw, ww, bri }),
            " CW="@ + dec(cw as nat) + " WW="@,
        ),
        has_part(
            set_text(SetModel::Rgbcw { by_mac: false, r, g, b, cw, ww, bri }),
            " WW="@ + dec(ww as nat) + " @ "@,
        ),
        has_part(
            set_text(SetModel::Rgbcw { by_mac: false, r, g, b, cw, ww, bri }),
            " @ "@ + dec(bri as nat) + "%"@,
        ),
{
    let p = seq![
        "RGBCW direct 0xA8 (ignored on TL120C — should stay white): R="@,
        dec(r as nat),
        " G="@,
        dec(g as nat),
        " B="@,
        dec(b as nat),
        " CW="@,
        dec(cw as nat),
        " WW="@,
        dec(ww as nat),
        " @ "@,
        dec(bri as nat),
        "%"@,
    ];
    reveal_with_fuel(chained, 14);
    assert(set_text(SetModel::Rgbcw { by_mac: false, r, g, b, cw, ww, bri }) =~= chained(p, 13));
    law_pieces_are_parts(p, 13, 0);
    law_pieces_are_parts(p, 13, 2);
    law_pieces_are_parts(p, 13, 4);
    law_pieces_are_parts(p, 13, 6);
    law_pieces_are_parts(p, 13, 8);
    law_pieces_are_parts(p, 13, 10);
}

/// The report of a palette says how many segments there are, its effect and its speed.
pub proof fn law_reports_palette(hues: Seq<u16>, effect: u8, speed: u8)
    requires
        effect == 1 || effect == 3 || effect == 4 || effect == 5 || effect == 7,
    ensures
        has_part(
            set_text(SetModel::Pixel { hues, effect, speed }),
            "PIXEL "@ + dec(hues.len()) + " seg eff="@,
        ),
        has_part(
            set_text(SetModel::Pixel { hues, effect, speed }),
            " seg eff="@ + dec(effect as nat) + " speed="@,
        ),
        has_part(
            set_text(SetModel::Pixel { hues, effect, speed }),
            " speed="@ + dec(speed as nat) + ""@,
        ),
{
    let p = seq![
        "PIXEL "@,
        dec(hues.len()),
        " seg eff="@,
        dec(effect as nat),
        " speed="@,
        dec(speed as nat),
        ""@,
    ];
    reveal_strlit("");
    reveal_with_fuel(chained, 8);
    assert(set_text(SetModel::Pixel { hues, effect, speed }) =~= chained(p, 7));
    law_pieces_are_parts(p, 7, 0);
    law_pieces_are_parts(p, 7, 2);
    law_pieces_are_parts(p, 7, 4);
}

/// An effect that the lights do not take over a direct connection is reported with the one
/// that is sent for it.
pub proof fn law_reports_substitute(hues: Seq<u16>, effect: u8, speed: u8)
    requires
        effect != 1 && effect != 3 && effect != 4 && effect != 5 && effect != 7,
    ensures
        has_part(
            set_text(SetModel::Pixel { hues, effect, speed }),
            "PIXEL "@ + dec(hues.len()) + " seg eff="@,
        ),
        has_part(
            set_text(SetModel::Pixel { hues, effect, speed }),
            " seg eff="@ + dec(effect as nat) + " → not supported over direct BLE, sending "@,
        ),
        has_part(
            set_text(SetModel::Pixel { hues, effect, speed }),
            " → not supported over direct BLE, sending "@ + dec(1) + " (ColorReplacement) speed="@,
        ),
        has_part(
            set_text(SetModel::Pixel { hues, effect, speed }),
            " (ColorReplacement) speed="@ + dec(speed as nat) + ""@,
        ),
{
    let p = seq![
        "PIXEL "@,
        dec(hues.len()),
        " seg eff="@,
        dec(effect as nat),
        " → not supported over direct BLE, sending "@,
        dec(1),
        " (ColorReplacement) speed="@,
        dec(speed as nat),
        ""@,
    ];
    reveal_strlit("");
    reveal_with_fuel(chained, 10);
    assert(set_text(SetModel::Pixel { hues, effect, speed }) =~= chained(p, 9));
    law_pieces_are_parts(p, 9, 0);
    law_pieces_are_parts(p, 9, 2);
    law_pieces_are_parts(p, 9, 4);
    law_pieces_are_parts(p, 9, 6);
}

/// The report of a raw frame says its bytes.
pub proof fn law_reports_raw(bytes: Seq<u8>)
    ensures
        has_part(
            set_text(SetModel::Raw { bytes }),
            "raw frame ["@ + spaced_hex(bytes, true) + "]"@,
        ),
{
    let p = seq![
        "raw frame ["@,
        spaced_hex(bytes, true),
        "]"@,
    ];
    reveal_with_fuel(chained, 4);
    assert(set_text(SetModel::Raw { bytes }) =~= chained(p, 3));
    law_pieces_are_parts(p, 3, 0);
}

/// What was read out of a text means what its fields say.
pub proof fn law_read_values(set: SetSpec)
    ensures
        match set {
            SetSpec::WarmDim => set@ is WarmDim,
            SetSpec::Cct { kelvin, bri } => set@ == (SetModel::Cct { kelvin, bri }),
            SetSpec::CctGm { kelvin, gm, bri, form } => set@ == (SetModel::CctGm {
                kelvin,
                gm,
                bri,
                form,
            }),
            SetSpec::Hsi { hue, sat, bri } => set@ == (SetModel::Hsi { hue, sat, bri }),
            SetSpec::Xy { by_mac, x, y, bri } => set@ == (SetModel::Xy { by_mac, x, y, bri }),
            SetSpec::Fx { by_mac, id, bri } => set@ == (SetModel::Fx { by_mac, id, bri }),
            SetSpec::Scene { id, bri } => set@ == (SetModel::Scene { id, bri }),
            SetSpec::Pixel { hues, effect, speed } => set@ == (SetModel::Pixel {
                hues: hues@,
                effect,
                speed,
            }),
            SetSpec::PixelEffect { id } => set@ == (SetModel::PixelEffect { id }),
            SetSpec::Rgbcw { by_mac, r, g, b, cw, ww, bri } => set@ == (SetModel::Rgbcw {
                by_mac,
                r,
                g,
                b,
                cw,
                ww,
                bri,
            }),
            SetSpec::Raw { bytes } => set@ == (SetModel::Raw { bytes: bytes@ }),
        },
{
}

/// A reading agrees with what a text asks for where both give the same values, or the same
/// error.
pub proof fn law_readings_agree(r: Result<SetSpec, SetError>, text: Seq<char>)
    requires
        agrees(r, asked(text)),
    ensures
        r is Ok <==> asked(text) is Ok,
        r matches Ok(set) ==> asked(text)->Ok_0 == set@,
        r matches Err(e) ==> asked(text)->Err_0 == e,
{
}

} // verus!
