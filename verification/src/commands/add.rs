//! The `add` command: which light was picked, and the config entry that is written for
//! it. What is asked for wins over what the model catalog knows, which wins over safe
//! defaults.

use vstd::prelude::*;
use vstd::string::*;
use crate::commands::probe::{driver_called, TestDriver};
use crate::config::{
    colon_form, format_mac, hex_digits, mac_bytes, parse_mac, LightCfg, MacError, DEFAULT_CCT_MAX,
    DEFAULT_CCT_MIN, DEFAULT_CMD_TYPE,
};
use crate::models::Model;
use crate::parse::laws::law_numbers_read_back;
use crate::parse::{parse_unsigned, unsigned_upto};
use crate::profile::Profile;
use crate::text::{chars_of, dec, lower, spells, string_of, to_lower, trim, trimmed};

verus! {

broadcast use vstd::string::group_string_axioms;

/// What a line typed at the list of lights picks.
#[derive(Debug, Clone, Copy, PartialEq, Eq, Structural)]
pub enum Selection {
    /// Nothing: an empty line, or `q`.
    Cancel,
    /// The light at this position, counted from 0.
    Light(usize),
    /// It is neither.
    Invalid,
}

/// What a line picks out of `count` lights, which are numbered from 1.
pub open spec fn picked(line: Seq<char>, count: usize) -> Selection {
    let t = trimmed(line);
    if t.len() == 0 || lower(t) == "q"@ {
        Selection::Cancel
    } else {
        match unsigned_upto(t, usize::MAX as u64) {
            Some(n) => if 1 <= n <= count {
                Selection::Light((n - 1) as usize)
            } else {
                Selection::Invalid
            },
            None => Selection::Invalid,
        }
    }
}

/// What a line picks out of `count` lights.
pub fn select(line: &str, count: usize) -> (r: Selection)
    ensures
        r == picked(line@, count),
{
    let chars = chars_of(line);
    let t = trim(&chars);
    if t.len() == 0 || is_letter(t, "q") {
        return Selection::Cancel;
    }
    match parse_unsigned(t, usize::MAX as u64) {
        Some(n) => if 1 <= n && n <= count as u64 {
            Selection::Light((n - 1) as usize)
        } else {
            Selection::Invalid
        },
        None => Selection::Invalid,
    }
}

fn is_letter(t: &[char], letter: &str) -> (r: bool)
    ensures
        r == (lower(t@) == letter@),
{
    let text = string_of(t);
    let low = to_lower(text.as_str());
    spells(&low, letter)
}

/// A typed line without the white space around it, or the default where nothing was
/// typed.
pub open spec fn answered(line: Seq<char>, default: Seq<char>) -> Seq<char> {
    if trimmed(line).len() == 0 {
        default
    } else {
        trimmed(line)
    }
}

/// A typed line, or the default where nothing was typed.
pub fn answer(line: &str, default: &str) -> (r: String)
    ensures
        r@ == answered(line@, default@),
{
    let chars = chars_of(line);
    let t = trim(&chars);
    if t.len() == 0 {
        default.to_owned()
    } else {
        string_of(t)
    }
}

/// Whether a typed line declines: `n` in either case. Everything else agrees.
pub fn declined(line: &str) -> (r: bool)
    ensures
        r == (lower(trimmed(line@)) == "n"@),
{
    let chars = chars_of(line);
    is_letter(trim(&chars), "n")
}

/// A typed number, or the default where nothing was typed; `None` where it is none or
/// too large.
pub fn number_or(line: &str, default: u16) -> (r: Option<u16>)
    ensures
        r == if trimmed(line@).len() == 0 {
            Some(default)
        } else {
            match unsigned_upto(trimmed(line@), 65535) {
                Some(v) => Some(v as u16),
                None => None,
            }
        },
{
    let chars = chars_of(line);
    let t = trim(&chars);
    if t.len() == 0 {
        return Some(default);
    }
    match parse_unsigned(t, 65535) {
        Some(v) => Some(v as u16),
        None => None,
    }
}

/// What is proposed for a light.
#[derive(Debug, Clone)]
pub struct Proposal {
    pub driver: String,
    pub profile: String,
    pub cct_min: u8,
    pub cct_max: u8,
    pub name: String,
    pub cmd_type: u8,
}

/// The profile that a model is proposed.
pub open spec fn model_profile(m: &Model) -> Profile {
    if m.supports_rgb {
        Profile::Advanced
    } else if m.supports_gm {
        Profile::CctGm
    } else {
        Profile::Cct
    }
}

/// What is proposed for a light: what the catalog knows of its model, else safe values
/// and the name that it advertises, or its address.
pub fn propose(model: Option<&Model>, ble_name: &str, address: &str) -> (r: Proposal)
    ensures
        match model {
            Some(m) => {
                &&& r.driver@ == m.driver@
                &&& r.profile@ == model_profile(m).name()
                &&& r.cct_min == m.cct_min
                &&& r.cct_max == m.cct_max
                &&& r.name@ == m.name@
                &&& r.cmd_type == m.cmd_type
            },
            None => {
                &&& r.driver@ == "auto"@
                &&& r.profile@ == "full"@
                &&& r.cct_min == DEFAULT_CCT_MIN
                &&& r.cct_max == DEFAULT_CCT_MAX
                &&& r.name@ == if ble_name@.len() == 0 {
                    address@
                } else {
                    ble_name@
                }
                &&& r.cmd_type == DEFAULT_CMD_TYPE
            },
        },
        model is None ==> r.cct_min == 32 && r.cct_max == 56 && r.cmd_type == 2,
{
    match model {
        Some(m) => Proposal {
            driver: m.driver.clone(),
            profile: m.profile().as_str().to_owned(),
            cct_min: m.cct_min,
            cct_max: m.cct_max,
            name: m.name.clone(),
            cmd_type: m.cmd_type,
        },
        None => Proposal {
            driver: "auto".to_owned(),
            profile: "full".to_owned(),
            cct_min: DEFAULT_CCT_MIN,
            cct_max: DEFAULT_CCT_MAX,
            name: if ble_name.is_empty() {
                address.to_owned()
            } else {
                ble_name.to_owned()
            },
            cmd_type: DEFAULT_CMD_TYPE,
        },
    }
}

/// Why no entry can be written.
#[derive(Debug, Clone, Copy, PartialEq, Eq, Structural)]
pub enum AddError {
    /// The address is no MAC.
    BadMac(MacError),
    /// There is no driver of that name.
    UnknownDriver,
    /// No profile was asked for, and the model is not known.
    NoProfile,
    /// There is no profile of that name.
    UnknownProfile,
}

/// The entry for a light that was picked and answered for.
pub fn add(
    address: &str,
    driver: &str,
    profile: &str,
    universe: u16,
    channel: u16,
    name: &str,
    proposal: &Proposal,
) -> (r: Result<LightCfg, AddError>)
    ensures
        match r {
            Ok(l) => {
                &&& driver_called(driver@) is Some
                &&& Profile::named(profile@) is Some
                &&& mac_bytes(address@) is Some
                &&& l.mac@ == colon_form(mac_bytes(address@)->0)
                &&& l.name matches Some(n) && n@ == name@
                &&& l.driver@ == driver@
                &&& l.profile@ == profile@
                &&& l.universe == universe
                &&& l.address == channel
                &&& l.power_on_connect
                &&& l.cct_min == proposal.cct_min
                &&& l.cct_max == proposal.cct_max
                &&& l.cmd_type == proposal.cmd_type
            },
            Err(AddError::UnknownDriver) => driver_called(driver@) is None,
            Err(AddError::BadMac(e)) => {
                &&& driver_called(driver@) is Some
                &&& mac_bytes(address@) is None
                &&& e.digits == hex_digits(address@).len()
            },
            Err(AddError::UnknownProfile) => {
                &&& driver_called(driver@) is Some
                &&& mac_bytes(address@) is Some
                &&& Profile::named(profile@) is None
            },
            Err(AddError::NoProfile) => false,
        },
{
    if TestDriver::parse(driver).is_err() {
        return Err(AddError::UnknownDriver);
    }
    let mac = match parse_mac(address) {
        Ok(b) => format_mac(b),
        Err(e) => {
            return Err(AddError::BadMac(e));
        },
    };
    if Profile::parse(profile).is_none() {
        return Err(AddError::UnknownProfile);
    }
    Ok(
        LightCfg {
            mac,
            name: Some(name.to_owned()),
            driver: driver.to_owned(),
            profile: profile.to_owned(),
            universe,
            address: channel,
            power_on_connect: true,
            cct_min: proposal.cct_min,
            cct_max: proposal.cct_max,
            cmd_type: proposal.cmd_type,
        },
    )
}

/// What was asked for on the command line.
#[derive(Debug, Clone)]
pub struct AddFlags {
    pub driver: Option<String>,
    pub profile: Option<String>,
    pub universe: u16,
    pub address: u16,
    pub name: Option<String>,
    pub cct_min: Option<u8>,
    pub cct_max: Option<u8>,
}

/// The driver of an entry.
pub open spec fn driver_for(flags: &AddFlags, model: Option<&Model>) -> Seq<char> {
    match flags.driver {
        Some(d) => d@,
        None => match model {
            Some(m) => m.driver@,
            None => "auto"@,
        },
    }
}

/// The profile of an entry, if one is known.
pub open spec fn profile_for(flags: &AddFlags, model: Option<&Model>) -> Option<Seq<char>> {
    match flags.profile {
        Some(p) => Some(p@),
        None => match model {
            Some(m) => Some(model_profile(m).name()),
            None => None,
        },
    }
}

/// The name of an entry, if one is known.
pub open spec fn name_for(flags: &AddFlags, model: Option<&Model>, ble_name: Seq<char>) -> Option<
    Seq<char>,
> {
    match flags.name {
        Some(n) => Some(n@),
        None => match model {
            Some(m) => Some(m.name@),
            None => if ble_name.len() > 0 {
                Some(ble_name)
            } else {
                None
            },
        },
    }
}

/// The colour-temperature range of an entry.
pub open spec fn range_for(flags: &AddFlags, model: Option<&Model>) -> (u8, u8) {
    (
        match flags.cct_min {
            Some(v) => v,
            None => match model {
                Some(m) => m.cct_min,
                None => DEFAULT_CCT_MIN,
            },
        },
        match flags.cct_max {
            Some(v) => v,
            None => match model {
                Some(m) => m.cct_max,
                None => DEFAULT_CCT_MAX,
            },
        },
    )
}

/// The entry for a light named on the command line: every field is the flag's, else the
/// model's, else a safe default. There is no safe default for the profile.
pub fn add_noninteractive(
    mac: &str,
    flags: &AddFlags,
    model: Option<&Model>,
    ble_name: &str,
) -> (r: Result<LightCfg, AddError>)
    ensures
        ({
            let driver = driver_for(flags, model);
            let profile = profile_for(flags, model);
            match r {
                Ok(l) => {
                    &&& mac_bytes(mac@) is Some
                    &&& driver_called(driver) is Some
                    &&& profile == Some(l.profile@)
                    &&& Profile::named(l.profile@) is Some
                    &&& l.mac@ == colon_form(mac_bytes(mac@)->0)
                    &&& match l.name {
                        Some(n) => name_for(flags, model, ble_name@) == Some(n@),
                        None => name_for(flags, model, ble_name@) is None,
                    }
                    &&& l.driver@ == driver
                    &&& l.universe == flags.universe
                    &&& l.address == flags.address
                    &&& l.power_on_connect
                    &&& (l.cct_min, l.cct_max) == range_for(flags, model)
                    &&& l.cmd_type == match model {
                        Some(m) => m.cmd_type,
                        None => DEFAULT_CMD_TYPE,
                    }
                },
                Err(AddError::BadMac(e)) => mac_bytes(mac@) is None && e.digits == hex_digits(
                    mac@,
                ).len(),
                Err(AddError::UnknownDriver) => mac_bytes(mac@) is Some && driver_called(
                    driver,
                ) is None,
                Err(AddError::NoProfile) => {
                    &&& mac_bytes(mac@) is Some
                    &&& driver_called(driver) is Some
                    &&& profile is None
                },
                Err(AddError::UnknownProfile) => {
                    &&& mac_bytes(mac@) is Some
                    &&& driver_called(driver) is Some
                    &&& profile is Some
                    &&& Profile::named(profile->0) is None
                },
            }
        }),
        r is Ok && model is None ==> r->Ok_0.cmd_type == 2,
{
    let mac = match parse_mac(mac) {
        Ok(b) => format_mac(b),
        Err(e) => {
            return Err(AddError::BadMac(e));
        },
    };
    let driver: String = match &flags.driver {
        Some(d) => d.clone(),
        None => match model {
            Some(m) => m.driver.clone(),
            None => "auto".to_owned(),
        },
    };
    if TestDriver::parse(driver.as_str()).is_err() {
        return Err(AddError::UnknownDriver);
    }
    let profile: String = match &flags.profile {
        Some(p) => p.clone(),
        None => match model {
            Some(m) => m.profile().as_str().to_owned(),
            None => {
                return Err(AddError::NoProfile);
            },
        },
    };
    if Profile::parse(profile.as_str()).is_none() {
        return Err(AddError::UnknownProfile);
    }
    let name: Option<String> = match &flags.name {
        Some(n) => Some(n.clone()),
        None => match model {
            Some(m) => Some(m.name.clone()),
            None => if ble_name.is_empty() {
                None
            } else {
                Some(ble_name.to_owned())
            },
        },
    };
    let (model_min, model_max, cmd_type): (u8, u8, u8) = match model {
        Some(m) => (m.cct_min, m.cct_max, m.cmd_type),
        None => (DEFAULT_CCT_MIN, DEFAULT_CCT_MAX, DEFAULT_CMD_TYPE),
    };
    Ok(
        LightCfg {
            mac,
            name,
            driver,
            profile,
            universe: flags.universe,
            address: flags.address,
            power_on_connect: true,
            cct_min: match flags.cct_min {
                Some(v) => v,
                None => model_min,
            },
            cct_max: match flags.cct_max {
                Some(v) => v,
                None => model_max,
            },
            cmd_type,
        },
    )
}

/// A number picks the light with that number, counted from 1; one past the list, and 0,
/// is no choice. Nothing, and a `q`, cancels.
pub proof fn law_picking(n: nat, count: usize)
    requires
        n <= usize::MAX,
    ensures
        1 <= n <= count ==> picked(dec(n), count) == Selection::Light((n - 1) as usize),
        n == 0 || n > count ==> picked(dec(n), count) == Selection::Invalid,
        picked(Seq::empty(), count) == Selection::Cancel,
        picked(seq!['q'], count) == Selection::Cancel,
        picked(seq!['Q'], count) == Selection::Cancel,
{
    reveal_strlit("q");
    let none = Seq::<char>::empty();
    assert(trimmed(none) =~= none);
    crate::text::laws::law_decimals_read_back(n);
    let t = dec(n);
    assert('0' <= t[0] <= '9' && '0' <= t[t.len() - 1] <= '9');
    assert(trimmed(t) == t);
    assert(lower(t) != "q"@) by {
        assert(lower(t)[0] == t[0]);
        assert("q"@[0] == 'q');
    }
    law_numbers_read_back(n, usize::MAX as u64);
    assert(trimmed(seq!['q']) == seq!['q']);
    assert(trimmed(seq!['Q']) == seq!['Q']);
    assert(lower(seq!['q']) =~= "q"@);
    assert(lower(seq!['Q']) =~= "q"@);
}

/// White space around a line changes nothing about what it picks or answers.
pub proof fn law_white_space_does_not_count(
    line: Seq<char>,
    other: Seq<char>,
    count: usize,
    default: Seq<char>,
)
    requires
        trimmed(line) == trimmed(other),
    ensures
        picked(line, count) == picked(other, count),
        answered(line, default) == answered(other, default),
        trimmed(line).len() == 0 ==> answered(line, default) == default,
        trimmed(line).len() > 0 ==> answered(line, default) == trimmed(line),
{
}

/// Every field of an entry is the flag's where there is one, else the model's, else the
/// default: driver `auto`, no profile, the advertised name, 3200 to 5600 kelvin.
pub proof fn law_flags_come_first(flags: AddFlags, m: Model, ble_name: Seq<char>)
    ensures
        flags.driver is Some ==> driver_for(&flags, Some(&m)) == flags.driver->0@ && driver_for(
            &flags,
            None,
        ) == flags.driver->0@,
        flags.driver is None ==> driver_for(&flags, Some(&m)) == m.driver@ && driver_for(
            &flags,
            None,
        ) == "auto"@,
        flags.profile is Some ==> profile_for(&flags, Some(&m)) == Some(flags.profile->0@)
            && profile_for(&flags, None) == Some(flags.profile->0@),
        flags.profile is None ==> profile_for(&flags, Some(&m)) == Some(model_profile(&m).name())
            && profile_for(&flags, None) is None,
        flags.name is Some ==> name_for(&flags, Some(&m), ble_name) == Some(flags.name->0@)
            && name_for(&flags, None, ble_name) == Some(flags.name->0@),
        flags.name is None ==> name_for(&flags, Some(&m), ble_name) == Some(m.name@) && name_for(
            &flags,
            None,
            ble_name,
        ) == if ble_name.len() > 0 {
            Some(ble_name)
        } else {
            None
        },
        flags.cct_min is Some ==> range_for(&flags, Some(&m)).0 == flags.cct_min->0 && range_for(
            &flags,
            None,
        ).0 == flags.cct_min->0,
        flags.cct_min is None ==> range_for(&flags, Some(&m)).0 == m.cct_min && range_for(
            &flags,
            None,
        ).0 == 32,
        flags.cct_max is Some ==> range_for(&flags, Some(&m)).1 == flags.cct_max->0 && range_for(
            &flags,
            None,
        ).1 == flags.cct_max->0,
        flags.cct_max is None ==> range_for(&flags, Some(&m)).1 == m.cct_max && range_for(
            &flags,
            None,
        ).1 == 56,
{
}

/// A model with colour is driven in the advanced profile, one with a tint alone in the
/// tinted white one, any other in plain white.
pub proof fn law_profiles_of_models(m: &Model)
    ensures
        model_profile(m) == Profile::Advanced <==> m.supports_rgb,
        model_profile(m) == Profile::CctGm <==> !m.supports_rgb && m.supports_gm,
        model_profile(m) == Profile::Cct <==> !m.supports_rgb && !m.supports_gm,
{
}

} // verus!
