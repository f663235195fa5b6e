//! Structural validation of a configuration, independent of any hardware.

use vstd::prelude::*;
use vstd::string::*;
use crate::artnet::{Ip, DMX_UNIVERSE_SIZE, MAX_PORT_ADDRESS};
use crate::merge::{mode_named, MergeMode};
use crate::profile::Profile;
use crate::text::{
    ascii_only, chars_of, lower, same_chars, same_text, string_of, to_unicode_lower, trim, trimmed,
    unicode_lower,
};
use super::{
    mac_bytes, mac_eq, parse_mac, same_mac, ArtNet, Config, FailsafeMode, LightCfg, Logging,
    ResolvedInput, MAX_CMD_TYPE, MAX_EXTRA_INPUTS,
};

verus! {

/// What is wrong with one light.
#[derive(Debug, Clone, Copy, PartialEq, Eq, Structural)]
pub enum LightProblem {
    /// The MAC does not hold twelve hexadecimal digits.
    Mac,
    /// Unknown driver selector.
    Driver,
    /// Unknown profile.
    Profile,
    /// The universe is no 15-bit port-address.
    Universe,
    /// The start channel is outside 1..=512.
    Address,
    /// The profile's channels run past the universe, to channel `last`.
    Overrun { last: u32 },
    /// The colour-temperature range is reversed.
    CctRange,
    /// The command type is out of range.
    CmdType,
}

/// What is wrong with a configuration: the first problem found.
#[derive(Debug, Clone, Copy, PartialEq, Eq, Structural)]
pub enum ConfigError {
    /// Unknown failsafe mode.
    FailsafeMode,
    /// Unknown merge mode.
    MergeMode,
    /// More extra inputs than supported.
    TooManyInputs,
    /// An input with port 0.
    ZeroPort { input: usize },
    /// Two inputs with one log label.
    SameLabel { first: usize, second: usize },
    /// Two inputs with one address and port.
    SameBind { first: usize, second: usize },
    /// Two inputs on one port, one of which binds every interface.
    WildcardShared { first: usize, second: usize },
    /// No updates per second.
    ZeroFlush,
    /// No time between probes.
    ZeroProbe,
    /// A scan burst without length.
    ZeroScanWindow,
    /// Unknown default log level.
    LogLevel,
    /// Unknown console log level.
    ConsoleLevel,
    /// Unknown file log level.
    FileLevel,
    /// Neither console nor file: every diagnostic would be lost.
    Silent,
    /// A log file that rotates at size 0.
    ZeroLogSize,
    /// A log file with no rotations kept.
    ZeroLogFiles,
    /// A light that is not right.
    Light { index: usize, problem: LightProblem },
    /// Two lights with one MAC.
    DuplicateMac { first: usize, second: usize },
}

/// Whether a lower-case name is a log level.
pub open spec fn is_level(s: Seq<char>) -> bool {
    s == "trace"@ || s == "debug"@ || s == "info"@ || s == "warn"@ || s == "error"@
}

/// Whether a name is a driver selector.
pub open spec fn is_driver(s: Seq<char>) -> bool {
    s == "auto"@ || s == "classic"@ || s == "infinity"@ || s == "home"@
}

/// The last channel of a profile at a start channel.
pub open spec fn last_channel(address: u16, p: Profile) -> int {
    address + p.channels() - 1
}

/// What is wrong with one light, checked in order; `None` where all is well.
pub open spec fn light_problem(l: &LightCfg) -> Option<LightProblem> {
    let profile = Profile::named(l.profile@);
    if mac_bytes(l.mac@) is None {
        Some(LightProblem::Mac)
    } else if !is_driver(l.driver@) {
        Some(LightProblem::Driver)
    } else if profile is None {
        Some(LightProblem::Profile)
    } else if l.universe > MAX_PORT_ADDRESS {
        Some(LightProblem::Universe)
    } else if l.address < 1 || l.address > 512 {
        Some(LightProblem::Address)
    } else if last_channel(l.address, profile->0) > 512 {
        Some(LightProblem::Overrun { last: last_channel(l.address, profile->0) as u32 })
    } else if l.cct_min > l.cct_max {
        Some(LightProblem::CctRange)
    } else if l.cmd_type > MAX_CMD_TYPE {
        Some(LightProblem::CmdType)
    } else {
        None
    }
}

/// The first light from `from` on that is not right.
pub open spec fn bad_light(lights: Seq<LightCfg>, from: int) -> Option<ConfigError>
    decreases lights.len() - from,
{
    if from >= lights.len() {
        None
    } else {
        match light_problem(&lights[from]) {
            Some(problem) => Some(ConfigError::Light { index: from as usize, problem }),
            None => bad_light(lights, from + 1),
        }
    }
}

/// The first pair, in dictionary order from `(i, j)` on, of two numbers below `n`
/// that clash.
pub open spec fn first_clash(n: int, clash: spec_fn(int, int) -> bool, i: int, j: int) -> Option<
    (int, int),
>
    decreases n - i, n - j,
{
    if i >= n {
        None
    } else if j >= n {
        first_clash(n, clash, i + 1, i + 2)
    } else if clash(i, j) {
        Some((i, j))
    } else {
        first_clash(n, clash, i, j + 1)
    }
}

/// Two lights with one MAC.
pub open spec fn mac_clash(lights: Seq<LightCfg>) -> spec_fn(int, int) -> bool {
    |i: int, j: int| same_mac(lights[i].mac@, lights[j].mac@)
}

/// Two inputs with one label.
pub open spec fn label_clash(a: &ArtNet) -> spec_fn(int, int) -> bool {
    |i: int, j: int| a.label_at(i) == a.label_at(j)
}

/// The address that input `i` was read as, if it was.
pub open spec fn ip_of(ips: Seq<Option<Ip>>, i: int) -> Option<Ip> {
    if 0 <= i < ips.len() {
        ips[i]
    } else {
        None
    }
}

/// Whether an address stands for every interface.
pub open spec fn is_any(ip: Option<Ip>) -> bool {
    ip == Some(Ip::V4(0)) || ip == Some(Ip::V6(0))
}

/// Whether two inputs bind one address: the same address, or, where one is not
/// read as an address, the same text up to white space around it.
pub open spec fn same_bind(a: &ArtNet, ips: Seq<Option<Ip>>, i: int, j: int) -> bool {
    match (ip_of(ips, i), ip_of(ips, j)) {
        (Some(x), Some(y)) => x == y,
        _ => trimmed(a.ip_at(i)) == trimmed(a.ip_at(j)),
    }
}

/// Two inputs that cannot be bound both: one port, and one address or one that
/// stands for all.
pub open spec fn bind_clash(a: &ArtNet, ips: Seq<Option<Ip>>) -> spec_fn(int, int) -> bool {
    |i: int, j: int|
        a.port_at(i) == a.port_at(j) && (same_bind(a, ips, i, j) || is_any(ip_of(ips, i)) || is_any(
            ip_of(ips, j),
        ))
}

/// The first input from `from` on with port 0.
pub open spec fn zero_port(a: &ArtNet, from: int) -> Option<int>
    decreases a.input_count() - from,
{
    if from >= a.input_count() {
        None
    } else if a.port_at(from) == 0 {
        Some(from)
    } else {
        zero_port(a, from + 1)
    }
}

/// What is wrong with the listeners.
pub open spec fn input_problem(a: &ArtNet, ips: Seq<Option<Ip>>) -> Option<ConfigError> {
    let n = a.input_count();
    if mode_named(lower(a.merge@)) is None {
        Some(ConfigError::MergeMode)
    } else if a.inputs@.len() > 7 {
        Some(ConfigError::TooManyInputs)
    } else if let Some(i) = zero_port(a, 0) {
        Some(ConfigError::ZeroPort { input: i as usize })
    } else if let Some((i, j)) = first_clash(n, label_clash(a), 0, 1) {
        Some(ConfigError::SameLabel { first: i as usize, second: j as usize })
    } else if let Some((i, j)) = first_clash(n, bind_clash(a, ips), 0, 1) {
        if same_bind(a, ips, i, j) {
            Some(ConfigError::SameBind { first: i as usize, second: j as usize })
        } else {
            Some(ConfigError::WildcardShared { first: i as usize, second: j as usize })
        }
    } else {
        None
    }
}

/// The log levels of a config in lower case.
#[verifier::ext_equal]
pub struct LevelModel {
    pub level: Seq<char>,
    pub console: Option<Seq<char>>,
    pub file: Option<Seq<char>>,
}

/// The log levels of a config in lower case.
#[derive(Debug)]
pub struct Levels {
    pub level: String,
    pub console: Option<String>,
    pub file: Option<String>,
}

/// The view of an optional text.
pub open spec fn text_of(s: Option<String>) -> Option<Seq<char>> {
    match s {
        Some(t) => Some(t@),
        None => None,
    }
}

impl View for Levels {
    type V = LevelModel;

    open spec fn view(&self) -> LevelModel {
        LevelModel {
            level: self.level@,
            console: text_of(self.console),
            file: text_of(self.file),
        }
    }
}

/// An optional text in lower case.
pub open spec fn lowered(s: Option<String>) -> Option<Seq<char>> {
    match s {
        Some(t) => Some(unicode_lower(t@)),
        None => None,
    }
}

/// The levels a config asks for, in lower case.
pub open spec fn levels_of(l: &Logging) -> LevelModel {
    LevelModel {
        level: unicode_lower(l.level@),
        console: lowered(l.console_level),
        file: lowered(l.file_level),
    }
}

/// Whether a log file is configured.
pub open spec fn has_file(l: &Logging) -> bool {
    l.file matches Some(p) && p@.len() > 0
}

/// What is wrong with the logging settings.
pub open spec fn log_problem(l: &Logging, levels: LevelModel) -> Option<ConfigError> {
    if !is_level(levels.level) {
        Some(ConfigError::LogLevel)
    } else if levels.console is Some && !is_level(levels.console->0) {
        Some(ConfigError::ConsoleLevel)
    } else if levels.file is Some && !is_level(levels.file->0) {
        Some(ConfigError::FileLevel)
    } else if !l.console && !has_file(l) {
        Some(ConfigError::Silent)
    } else if has_file(l) && l.max_size_mb == 0 {
        Some(ConfigError::ZeroLogSize)
    } else if has_file(l) && l.max_files == 0 {
        Some(ConfigError::ZeroLogFiles)
    } else {
        None
    }
}

/// What is wrong with a configuration: the first problem, in the order of the
/// sections. `ips` holds what the bind addresses were read as, input by input;
/// `levels` the log levels in lower case.
pub open spec fn problem(c: &Config, ips: Seq<Option<Ip>>, levels: LevelModel) -> Option<
    ConfigError,
> {
    if FailsafeMode::named(c.failsafe.mode@) is None {
        Some(ConfigError::FailsafeMode)
    } else if input_problem(&c.artnet, ips) is Some {
        input_problem(&c.artnet, ips)
    } else if c.ble.flush_hz == 0 {
        Some(ConfigError::ZeroFlush)
    } else if c.ble.probe_secs == 0 {
        Some(ConfigError::ZeroProbe)
    } else if c.ble.scan_window_secs == 0 {
        Some(ConfigError::ZeroScanWindow)
    } else if log_problem(&c.logging, levels) is Some {
        log_problem(&c.logging, levels)
    } else if bad_light(c.lights@, 0) is Some {
        bad_light(c.lights@, 0)
    } else if let Some((i, j)) = first_clash(c.lights@.len() as int, mac_clash(c.lights@), 0, 1) {
        Some(ConfigError::DuplicateMac { first: i as usize, second: j as usize })
    } else {
        None
    }
}

/// The verdict on a configuration.
pub open spec fn verdict(problem: Option<ConfigError>) -> Result<(), ConfigError> {
    match problem {
        Some(e) => Err(e),
        None => Ok(()),
    }
}

fn known_level(s: &str) -> (r: bool)
    ensures
        r == is_level(s@),
{
    same_text(s, "trace") || same_text(s, "debug") || same_text(s, "info") || same_text(s, "warn")
        || same_text(s, "error")
}

fn known_driver(s: &str) -> (r: bool)
    ensures
        r == is_driver(s@),
{
    same_text(s, "auto") || same_text(s, "classic") || same_text(s, "infinity") || same_text(
        s,
        "home",
    )
}

fn check_light(l: &LightCfg) -> (r: Option<LightProblem>)
    ensures
        r == light_problem(l),
{
    if parse_mac(l.mac.as_str()).is_err() {
        return Some(LightProblem::Mac);
    }
    if !known_driver(l.driver.as_str()) {
        return Some(LightProblem::Driver);
    }
    let profile: Profile = match Profile::parse(l.profile.as_str()) {
        Some(p) => p,
        None => return Some(LightProblem::Profile),
    };
    if l.universe > MAX_PORT_ADDRESS {
        return Some(LightProblem::Universe);
    }
    if l.address < 1 || l.address > DMX_UNIVERSE_SIZE {
        return Some(LightProblem::Address);
    }
    let last: u32 = l.address as u32 + profile.channel_count() as u32 - 1;
    if last > DMX_UNIVERSE_SIZE as u32 {
        return Some(LightProblem::Overrun { last });
    }
    if l.cct_min > l.cct_max {
        return Some(LightProblem::CctRange);
    }
    if l.cmd_type > MAX_CMD_TYPE {
        return Some(LightProblem::CmdType);
    }
    None
}

fn check_lights(lights: &Vec<LightCfg>) -> (r: Option<ConfigError>)
    ensures
        r == bad_light(lights@, 0),
{
    let mut i: usize = 0;
    while i < lights.len()
        invariant
            i <= lights@.len(),
            bad_light(lights@, 0) == bad_light(lights@, i as int),
        decreases lights.len() - i,
    {
        if let Some(problem) = check_light(&lights[i]) {
            return Some(ConfigError::Light { index: i, problem });
        }
        i += 1;
    }
    None
}

fn find_mac_clash(lights: &Vec<LightCfg>) -> (r: Option<(usize, usize)>)
    ensures
        r matches Some((i, j)) ==> first_clash(
            lights@.len() as int,
            mac_clash(lights@),
            0,
            1,
        ) == Some((i as int, j as int)),
        r is None ==> first_clash(lights@.len() as int, mac_clash(lights@), 0, 1) is None,
{
    let n: usize = lights.len();
    let ghost clash = mac_clash(lights@);
    let mut i: usize = 0;
    while i < n
        invariant
            n == lights@.len(),
            i <= n,
            clash == mac_clash(lights@),
            first_clash(n as int, clash, 0, 1) == first_clash(n as int, clash, i as int, i + 1),
        decreases n - i,
    {
        let mut j: usize = i + 1;
        while j < n
            invariant
                n == lights@.len(),
                i < j <= n,
                clash == mac_clash(lights@),
                first_clash(n as int, clash, 0, 1) == first_clash(
                    n as int,
                    clash,
                    i as int,
                    j as int,
                ),
            decreases n - j,
        {
            if mac_eq(lights[i].mac.as_str(), lights[j].mac.as_str()) {
                return Some((i, j));
            }
            j += 1;
        }
        i += 1;
    }
    None
}

/// Whether the inputs are those of a config.
pub open spec fn resolves(a: &ArtNet, inputs: Seq<ResolvedInput>) -> bool {
    &&& inputs.len() == a.input_count()
    &&& forall|i: int|
        0 <= i < inputs.len() ==> (#[trigger] inputs[i]).bind_ip@ == a.ip_at(i) && inputs[i].port
            == a.port_at(i) && inputs[i].label@ == a.label_at(i)
}

fn find_zero_port(a: &ArtNet, inputs: &Vec<ResolvedInput>) -> (r: Option<usize>)
    requires
        resolves(a, inputs@),
    ensures
        r matches Some(i) ==> zero_port(a, 0) == Some(i as int),
        r is None ==> zero_port(a, 0) is None,
{
    let mut i: usize = 0;
    while i < inputs.len()
        invariant
            i <= inputs@.len(),
            resolves(a, inputs@),
            zero_port(a, 0) == zero_port(a, i as int),
        decreases inputs.len() - i,
    {
        if inputs[i].port == 0 {
            return Some(i);
        }
        i += 1;
    }
    None
}

fn find_label_clash(a: &ArtNet, inputs: &Vec<ResolvedInput>) -> (r: Option<(usize, usize)>)
    requires
        resolves(a, inputs@),
    ensures
        r matches Some((i, j)) ==> first_clash(a.input_count(), label_clash(a), 0, 1) == Some(
            (i as int, j as int),
        ),
        r is None ==> first_clash(a.input_count(), label_clash(a), 0, 1) is None,
{
    let n: usize = inputs.len();
    let ghost clash = label_clash(a);
    let mut i: usize = 0;
    while i < n
        invariant
            n == inputs@.len(),
            i <= n,
            resolves(a, inputs@),
            clash == label_clash(a),
            first_clash(n as int, clash, 0, 1) == first_clash(n as int, clash, i as int, i + 1),
        decreases n - i,
    {
        let mut j: usize = i + 1;
        while j < n
            invariant
                n == inputs@.len(),
                i < j <= n,
                resolves(a, inputs@),
                clash == label_clash(a),
                first_clash(n as int, clash, 0, 1) == first_clash(
                    n as int,
                    clash,
                    i as int,
                    j as int,
                ),
            decreases n - j,
        {
            if same_text(inputs[i].label.as_str(), inputs[j].label.as_str()) {
                return Some((i, j));
            }
            j += 1;
        }
        i += 1;
    }
    None
}

fn ip_at(ips: &[Option<Ip>], i: usize) -> (r: Option<Ip>)
    ensures
        r == ip_of(ips@, i as int),
{
    if i < ips.len() {
        ips[i]
    } else {
        None
    }
}

fn wildcard(ip: Option<Ip>) -> (r: bool)
    ensures
        r == is_any(ip),
{
    match ip {
        Some(Ip::V4(v)) => v == 0,
        Some(Ip::V6(v)) => v == 0,
        None => false,
    }
}

fn binds_same(
    a: &ArtNet,
    inputs: &Vec<ResolvedInput>,
    ips: &[Option<Ip>],
    i: usize,
    j: usize,
) -> (r: bool)
    requires
        resolves(a, inputs@),
        i < inputs@.len(),
        j < inputs@.len(),
    ensures
        r == same_bind(a, ips@, i as int, j as int),
{
    match (ip_at(ips, i), ip_at(ips, j)) {
        (Some(x), Some(y)) => x == y,
        _ => {
            let x = chars_of(inputs[i].bind_ip.as_str());
            let y = chars_of(inputs[j].bind_ip.as_str());
            same_chars(trim(&x), trim(&y))
        },
    }
}

fn find_bind_clash(a: &ArtNet, inputs: &Vec<ResolvedInput>, ips: &[Option<Ip>]) -> (r: Option<
    (usize, usize),
>)
    requires
        resolves(a, inputs@),
    ensures
        r matches Some((i, j)) ==> first_clash(a.input_count(), bind_clash(a, ips@), 0, 1) == Some(
            (i as int, j as int),
        ) && i < inputs@.len() && j < inputs@.len(),
        r is None ==> first_clash(a.input_count(), bind_clash(a, ips@), 0, 1) is None,
{
    let n: usize = inputs.len();
    let ghost clash = bind_clash(a, ips@);
    let mut i: usize = 0;
    while i < n
        invariant
            n == inputs@.len(),
            i <= n,
            resolves(a, inputs@),
            clash == bind_clash(a, ips@),
            first_clash(n as int, clash, 0, 1) == first_clash(n as int, clash, i as int, i + 1),
        decreases n - i,
    {
        let mut j: usize = i + 1;
        while j < n
            invariant
                n == inputs@.len(),
                i < n,
                i < j <= n,
                resolves(a, inputs@),
                clash == bind_clash(a, ips@),
                first_clash(n as int, clash, 0, 1) == first_clash(
                    n as int,
                    clash,
                    i as int,
                    j as int,
                ),
            decreases n - j,
        {
            if inputs[i].port == inputs[j].port {
                let clashing = binds_same(a, inputs, ips, i, j) || wildcard(ip_at(ips, i))
                    || wildcard(ip_at(ips, j));
                if clashing {
                    return Some((i, j));
                }
            }
            j += 1;
        }
        i += 1;
    }
    None
}

fn check_inputs(a: &ArtNet, ips: &[Option<Ip>]) -> (r: Option<ConfigError>)
    ensures
        r == input_problem(a, ips@),
{
    if MergeMode::parse(a.merge.as_str()).is_none() {
        return Some(ConfigError::MergeMode);
    }
    if a.inputs.len() > MAX_EXTRA_INPUTS {
        return Some(ConfigError::TooManyInputs);
    }
    let inputs = a.resolved_inputs();
    if let Some(input) = find_zero_port(a, &inputs) {
        return Some(ConfigError::ZeroPort { input });
    }
    if let Some((first, second)) = find_label_clash(a, &inputs) {
        return Some(ConfigError::SameLabel { first, second });
    }
    if let Some((first, second)) = find_bind_clash(a, &inputs, ips) {
        if binds_same(a, &inputs, ips, first, second) {
            return Some(ConfigError::SameBind { first, second });
        }
        return Some(ConfigError::WildcardShared { first, second });
    }
    None
}

fn check_logging(l: &Logging, levels: &Levels) -> (r: Option<ConfigError>)
    ensures
        r == log_problem(l, levels@),
{
    if !known_level(levels.level.as_str()) {
        return Some(ConfigError::LogLevel);
    }
    if let Some(v) = &levels.console {
        if !known_level(v.as_str()) {
            return Some(ConfigError::ConsoleLevel);
        }
    }
    if let Some(v) = &levels.file {
        if !known_level(v.as_str()) {
            return Some(ConfigError::FileLevel);
        }
    }
    let file_sink = file_sink(l);
    if !l.console && !file_sink {
        return Some(ConfigError::Silent);
    }
    if file_sink {
        if l.max_size_mb == 0 {
            return Some(ConfigError::ZeroLogSize);
        }
        if l.max_files == 0 {
            return Some(ConfigError::ZeroLogFiles);
        }
    }
    None
}

/// Whether a log file is configured: a path that is not empty.
pub fn file_sink(l: &Logging) -> (r: bool)
    ensures
        r == has_file(l),
{
    match &l.file {
        Some(p) => !p.as_str().is_empty(),
        None => false,
    }
}

fn lower_option(s: &Option<String>) -> (r: Option<String>)
    ensures
        text_of(r) == lowered(*s),
        ascii_option(*s) ==> lowered(*s) == ascii_lowered(*s),
{
    match s {
        Some(t) => Some(to_unicode_lower(t.as_str())),
        None => None,
    }
}

/// An optional text that is ASCII, if there is one.
pub open spec fn ascii_option(s: Option<String>) -> bool {
    s matches Some(t) ==> ascii_only(t@)
}

/// An optional text in ASCII lower case.
pub open spec fn ascii_lowered(s: Option<String>) -> Option<Seq<char>> {
    match s {
        Some(t) => Some(lower(t@)),
        None => None,
    }
}

/// The levels of a config whose level names are ASCII.
pub open spec fn ascii_levels_of(l: &Logging) -> LevelModel {
    LevelModel {
        level: lower(l.level@),
        console: ascii_lowered(l.console_level),
        file: ascii_lowered(l.file_level),
    }
}

/// Whether all level names are ASCII.
pub open spec fn ascii_levels(l: &Logging) -> bool {
    ascii_only(l.level@) && ascii_option(l.console_level) && ascii_option(l.file_level)
}

impl Config {
    /// Structural validation. `ips` holds, input by input, the address that the
    /// bind text reads as (see [`bare_address`]), `None` where it reads as none.
    pub fn validate(&self, ips: &[Option<Ip>]) -> (r: Result<(), ConfigError>)
        ensures
            r == verdict(problem(self, ips@, levels_of(&self.logging))),
            ascii_levels(&self.logging) ==> r == verdict(
                problem(self, ips@, ascii_levels_of(&self.logging)),
            ),
    {
        let levels = Levels {
            level: to_unicode_lower(self.logging.level.as_str()),
            console: lower_option(&self.logging.console_level),
            file: lower_option(&self.logging.file_level),
        };
        assert(levels@ == levels_of(&self.logging));
        proof {
            if ascii_levels(&self.logging) {
                assert(levels@ =~= ascii_levels_of(&self.logging));
            }
        }
        self.validate_lowered(ips, &levels)
    }

    /// Structural validation with the log levels in lower case already.
    pub fn validate_lowered(&self, ips: &[Option<Ip>], levels: &Levels) -> (r: Result<
        (),
        ConfigError,
    >)
        ensures
            r == verdict(problem(self, ips@, levels@)),
    {
        if FailsafeMode::parse(self.failsafe.mode.as_str()).is_none() {
            return Err(ConfigError::FailsafeMode);
        }
        if let Some(e) = check_inputs(&self.artnet, ips) {
            return Err(e);
        }
        if self.ble.flush_hz == 0 {
            return Err(ConfigError::ZeroFlush);
        }
        if self.ble.probe_secs == 0 {
            return Err(ConfigError::ZeroProbe);
        }
        if self.ble.scan_window_secs == 0 {
            return Err(ConfigError::ZeroScanWindow);
        }
        if let Some(e) = check_logging(&self.logging, levels) {
            return Err(e);
        }
        if let Some(e) = check_lights(&self.lights) {
            return Err(e);
        }
        if let Some((first, second)) = find_mac_clash(&self.lights) {
            return Err(ConfigError::DuplicateMac { first, second });
        }
        Ok(())
    }
}

/// The part of a bind text that is read as an address: without white space around
/// it and without a pair of square brackets.
pub open spec fn bare(s: Seq<char>) -> Seq<char> {
    let t = trimmed(s);
    if t.len() >= 2 && t[0] == '[' && t.last() == ']' {
        t.subrange(1, t.len() - 1)
    } else {
        t
    }
}

/// The part of a bind text that is read as an address.
pub fn bare_address(s: &str) -> (r: String)
    ensures
        r@ == bare(s@),
{
    let chars = chars_of(s);
    let t: &[char] = trim(&chars);
    if t.len() >= 2 && t[0] == '[' && t[t.len() - 1] == ']' {
        string_of(vstd::slice::slice_subrange(t, 1, t.len() - 1))
    } else {
        string_of(t)
    }
}

proof fn lemma_first_clash(n: int, clash: spec_fn(int, int) -> bool, i: int, j: int)
    requires
        0 <= i < j,
    ensures
        first_clash(n, clash, i, j) is None ==> forall|a: int, b: int|
            #![trigger clash(a, b)]
            ((a == i && j <= b) || (i < a < b)) && a < n && b < n ==> !clash(a, b),
        first_clash(n, clash, i, j) matches Some((a, b)) ==> clash(a, b) && i <= a < b < n,
    decreases n - i, n - j,
{
    if i >= n {
    } else if j >= n {
        lemma_first_clash(n, clash, i + 1, i + 2);
    } else if !clash(i, j) {
        lemma_first_clash(n, clash, i, j + 1);
    }
}

proof fn lemma_bad_light(lights: Seq<LightCfg>, from: int)
    requires
        0 <= from,
    ensures
        bad_light(lights, from) is None <==> forall|i: int|
            from <= i < lights.len() ==> light_problem(&#[trigger] lights[i]) is None,
    decreases lights.len() - from,
{
    if from < lights.len() {
        lemma_bad_light(lights, from + 1);
        if light_problem(&lights[from]) is None {
            assert forall|i: int| from <= i < lights.len() && bad_light(
                lights,
                from,
            ) is None implies light_problem(&#[trigger] lights[i]) is None by {
                if i > from {
                }
            }
        }
    }
}

/// Every light of an accepted configuration is right on its own.
pub proof fn law_accepted_light_is_sound(
    c: &Config,
    ips: Seq<Option<Ip>>,
    levels: LevelModel,
    i: int,
)
    requires
        problem(c, ips, levels) is None,
        0 <= i < c.lights@.len(),
    ensures
        light_problem(&c.lights@[i]) is None,
        Profile::named(c.lights@[i].profile@) is Some,
{
    lemma_bad_light(c.lights@, 0);
}

/// No two lights of an accepted configuration share a MAC.
pub proof fn law_accepted_lights_are_distinct(
    c: &Config,
    ips: Seq<Option<Ip>>,
    levels: LevelModel,
    i: int,
    j: int,
)
    requires
        problem(c, ips, levels) is None,
        0 <= i < j < c.lights@.len(),
    ensures
        !same_mac(c.lights@[i].mac@, c.lights@[j].mac@),
{
    lemma_first_clash(c.lights@.len() as int, mac_clash(c.lights@), 0, 1);
    assert(!mac_clash(c.lights@)(i, j));
}

/// A light that is right on its own fits in its universe and has an ordered
/// colour-temperature range, a MAC and a known profile.
pub proof fn law_sound_light_fits(l: &LightCfg, p: Profile)
    requires
        light_problem(l) is None,
        Profile::named(l.profile@) == Some(p),
    ensures
        mac_bytes(l.mac@) is Some,
        1 <= l.address && l.address - 1 + p.channels() <= 512,
        l.universe <= 32767,
        l.cct_min <= l.cct_max,
        l.cmd_type <= 3,
{
}

/// What an accepted configuration guarantees of two of its listeners: distinct
/// labels, and no way to fail for one another at bind time.
pub proof fn law_accepted_inputs_do_not_clash(
    c: &Config,
    ips: Seq<Option<Ip>>,
    levels: LevelModel,
    i: int,
    j: int,
)
    requires
        problem(c, ips, levels) is None,
        0 <= i < j < c.artnet.input_count(),
    ensures
        c.artnet.input_count() <= 8,
        c.artnet.label_at(i) != c.artnet.label_at(j),
        c.artnet.port_at(i) == c.artnet.port_at(j) ==> {
            &&& !same_bind(&c.artnet, ips, i, j)
            &&& !is_any(ip_of(ips, i))
            &&& !is_any(ip_of(ips, j))
        },
{
    let n = c.artnet.input_count();
    lemma_first_clash(n, label_clash(&c.artnet), 0, 1);
    lemma_first_clash(n, bind_clash(&c.artnet, ips), 0, 1);
    assert(!label_clash(&c.artnet)(i, j));
    assert(!bind_clash(&c.artnet, ips)(i, j));
}

/// The defaults are a valid configuration, whatever its address was read as.
pub proof fn law_default_config_is_accepted(c: &Config, ips: Seq<Option<Ip>>)
    requires
        c.is_default(),
    ensures
        problem(c, ips, ascii_levels_of(&c.logging)) is None,
{
    reveal_strlit("hold");
    reveal_strlit("ltp");
    reveal_strlit("info");
    crate::config::law_failsafe_name_parses_back(FailsafeMode::Hold);
    crate::merge::law_mode_name_parses_back(MergeMode::Ltp);
    reveal_with_fuel(zero_port, 3);
    reveal_with_fuel(first_clash, 4);
    reveal_with_fuel(bad_light, 2);
    assert(lower("info"@) =~= "info"@);
}

/// What a light must be, in its own terms: twelve hexadecimal digits for a MAC, one of
/// four drivers, a known profile, a universe below 32768, a start channel from which all
/// its channels lie in 1..=512, an ordered colour-temperature range and a command type up
/// to 3. A light that is all of this is right, and no other.
pub proof fn law_a_right_light(l: &LightCfg)
    ensures
        light_problem(l) is None <==> {
            &&& crate::config::hex_digits(l.mac@).len() == 12
            &&& l.driver@ == "auto"@ || l.driver@ == "classic"@ || l.driver@ == "infinity"@
                || l.driver@ == "home"@
            &&& l.universe < 32768
            &&& 1 <= l.address
            &&& l.cct_min <= l.cct_max
            &&& l.cmd_type <= 3
            &&& match Profile::named(l.profile@) {
                None => false,
                Some(Profile::Cct) => l.address + 1 <= 512,
                Some(Profile::CctGm) => l.address + 2 <= 512,
                Some(Profile::Hsi) => l.address + 2 <= 512,
                Some(Profile::Rgb) => l.address + 2 <= 512,
                Some(Profile::Rgbcw) => l.address + 4 <= 512,
                Some(Profile::Full) => l.address + 4 <= 512,
                Some(Profile::Advanced) => l.address + 9 <= 512,
                Some(Profile::Pixel) => l.address + 19 <= 512,
            }
        },
{
}

/// What a light is told is what is wrong with it.
pub proof fn law_light_problems_are_real(l: &LightCfg)
    ensures
        light_problem(l) matches Some(p) ==> match p {
            LightProblem::Mac => crate::config::hex_digits(l.mac@).len() != 12,
            LightProblem::Driver => !is_driver(l.driver@),
            LightProblem::Profile => Profile::named(l.profile@) is None,
            LightProblem::Universe => l.universe > 32767,
            LightProblem::Address => l.address == 0 || l.address > 512,
            LightProblem::Overrun { last } => {
                &&& Profile::named(l.profile@) is Some
                &&& 1 <= l.address <= 512 < last
                &&& last == l.address + Profile::named(l.profile@)->0.channels() - 1
            },
            LightProblem::CctRange => l.cct_min > l.cct_max,
            LightProblem::CmdType => l.cmd_type > 3,
        },
{
}

/// A wrong light is reported with its position, and no light before it is wrong.
pub proof fn law_the_first_wrong_light_is_reported(lights: Seq<LightCfg>, from: int)
    requires
        0 <= from,
        lights.len() <= usize::MAX,
    ensures
        bad_light(lights, from) is None <==> forall|i: int|
            from <= i < lights.len() ==> light_problem(&#[trigger] lights[i]) is None,
        bad_light(lights, from) matches Some(e) ==> {
            &&& e matches ConfigError::Light { index, problem }
            &&& from <= index < lights.len()
            &&& light_problem(&lights[index as int]) == Some(problem)
            &&& forall|i: int|
                from <= i < index ==> light_problem(&#[trigger] lights[i]) is None
        },
    decreases lights.len() - from,
{
    lemma_bad_light(lights, from);
    if from < lights.len() {
        law_the_first_wrong_light_is_reported(lights, from + 1);
    }
}

/// Two that clash are found exactly when there are any, and the first such pair is.
pub proof fn law_the_first_clash_is_found(n: int, clash: spec_fn(int, int) -> bool, i: int, j: int)
    requires
        0 <= i < j,
    ensures
        first_clash(n, clash, i, j) is None <==> forall|a: int, b: int|
            #![trigger clash(a, b)]
            ((a == i && j <= b) || (i < a < b)) && a < n && b < n ==> !clash(a, b),
        first_clash(n, clash, i, j) matches Some((a, b)) ==> {
            &&& i <= a < b < n && (a == i ==> j <= b)
            &&& clash(a, b)
            &&& forall|x: int, y: int|
                #![trigger clash(x, y)]
                ((x == i && j <= y) || (i < x < y)) && x < n && y < n && (x < a || (x == a && y < b))
                    ==> !clash(x, y)
        },
    decreases n - i, n - j,
{
    if i < n {
        if j >= n {
            law_the_first_clash_is_found(n, clash, i + 1, i + 2);
        } else if !clash(i, j) {
            law_the_first_clash_is_found(n, clash, i, j + 1);
        }
    }
}

/// Port 0 is found exactly where some listener has it, and the first one is.
pub proof fn law_port_zero_is_found(a: &ArtNet, from: int)
    requires
        0 <= from,
    ensures
        zero_port(a, from) is None <==> forall|i: int|
            from <= i < a.input_count() ==> #[trigger] a.port_at(i) != 0,
        zero_port(a, from) matches Some(i) ==> {
            &&& from <= i < a.input_count()
            &&& a.port_at(i) == 0
            &&& forall|k: int| from <= k < i ==> #[trigger] a.port_at(k) != 0
        },
    decreases a.input_count() - from,
{
    if from < a.input_count() {
        law_port_zero_is_found(a, from + 1);
    }
}

/// Whether two listeners can both be bound: on different ports, or on different addresses
/// neither of which is every interface.
pub open spec fn can_share(a: &ArtNet, ips: Seq<Option<Ip>>, i: int, j: int) -> bool {
    let x = if i < ips.len() {
        ips[i]
    } else {
        None
    };
    let y = if j < ips.len() {
        ips[j]
    } else {
        None
    };
    a.port_at(i) != a.port_at(j) || {
        &&& x != Some(Ip::V4(0)) && x != Some(Ip::V6(0))
        &&& y != Some(Ip::V4(0)) && y != Some(Ip::V6(0))
        &&& if x is Some && y is Some {
            x != y
        } else {
            trimmed(a.ip_at(i)) != trimmed(a.ip_at(j))
        }
    }
}

/// What the listeners must be: a known merge mode, at most eight of them, none at port 0,
/// no two with one label, and no two that cannot both be bound. Listeners that are all of
/// this are right, and no others.
pub proof fn law_right_listeners(a: &ArtNet, ips: Seq<Option<Ip>>)
    ensures
        input_problem(a, ips) is None <==> {
            &&& mode_named(lower(a.merge@)) is Some
            &&& a.inputs@.len() <= 7
            &&& forall|i: int| 0 <= i <= a.inputs@.len() ==> #[trigger] a.port_at(i) != 0
            &&& forall|i: int, j: int|
                0 <= i < j <= a.inputs@.len() ==> #[trigger] a.label_at(i) != #[trigger] a.label_at(
                    j,
                )
            &&& forall|i: int, j: int|
                0 <= i < j <= a.inputs@.len() ==> #[trigger] can_share(a, ips, i, j)
        },
{
    let n = a.input_count();
    law_port_zero_is_found(a, 0);
    let labels = label_clash(a);
    let binds = bind_clash(a, ips);
    law_the_first_clash_is_found(n, labels, 0, 1);
    law_the_first_clash_is_found(n, binds, 0, 1);
    assert forall|i: int, j: int| 0 <= i < j < n implies (#[trigger] binds(i, j) <==> !can_share(
        a,
        ips,
        i,
        j,
    )) by {}
    assert forall|i: int, j: int| 0 <= i < j < n implies (#[trigger] labels(i, j) <==> a.label_at(i)
        == a.label_at(j)) by {}
    if first_clash(n, labels, 0, 1) is None {
        assert forall|i: int, j: int| 0 <= i < j <= a.inputs@.len() implies #[trigger] a.label_at(i)
            != #[trigger] a.label_at(j) by {
            assert(!labels(i, j));
        }
    }
    if first_clash(n, binds, 0, 1) is None {
        assert forall|i: int, j: int| 0 <= i < j <= a.inputs@.len() implies #[trigger] can_share(
            a,
            ips,
            i,
            j,
        ) by {
            assert(!binds(i, j));
        }
    }
}

/// What the logging must be: known levels, somewhere to log to, and, with a file, a size
/// and a number of files. Logging that is all of this is right, and no other.
pub proof fn law_right_logging(l: &Logging, levels: LevelModel)
    ensures
        log_problem(l, levels) is None <==> {
            let file = l.file is Some && l.file->0@.len() > 0;
            &&& is_level(levels.level)
            &&& levels.console is Some ==> is_level(levels.console->0)
            &&& levels.file is Some ==> is_level(levels.file->0)
            &&& l.console || file
            &&& file ==> l.max_size_mb > 0 && l.max_files > 0
        },
        log_problem(l, levels) == Some(ConfigError::Silent) ==> !l.console,
        is_level(levels.level) <==> levels.level == "trace"@ || levels.level == "debug"@
            || levels.level == "info"@ || levels.level == "warn"@ || levels.level == "error"@,
{
}

/// A configuration is accepted exactly when every section of it is right and no two
/// lights are one.
pub proof fn law_right_configurations(c: &Config, ips: Seq<Option<Ip>>, levels: LevelModel)
    ensures
        problem(c, ips, levels) is None <==> {
            &&& c.failsafe.mode@ == "hold"@ || c.failsafe.mode@ == "blackout"@ || c.failsafe.mode@
                == "poweroff"@
            &&& input_problem(&c.artnet, ips) is None
            &&& c.ble.flush_hz > 0
            &&& c.ble.probe_secs > 0
            &&& c.ble.scan_window_secs > 0
            &&& log_problem(&c.logging, levels) is None
            &&& forall|i: int|
                0 <= i < c.lights@.len() ==> light_problem(&#[trigger] c.lights@[i]) is None
            &&& forall|i: int, j: int|
                0 <= i < j < c.lights@.len() ==> !same_mac(
                    (#[trigger] c.lights@[i]).mac@,
                    (#[trigger] c.lights@[j]).mac@,
                )
        },
        verdict(problem(c, ips, levels)) is Ok <==> problem(c, ips, levels) is None,
{
    let n = c.lights@.len() as int;
    lemma_bad_light(c.lights@, 0);
    let macs = mac_clash(c.lights@);
    law_the_first_clash_is_found(n, macs, 0, 1);
    assert forall|i: int, j: int| 0 <= i < j < n implies (#[trigger] macs(i, j) <==> same_mac(
        c.lights@[i].mac@,
        c.lights@[j].mac@,
    )) by {}
    if first_clash(n, macs, 0, 1) is None {
        assert forall|i: int, j: int| 0 <= i < j < n implies !same_mac(
            (#[trigger] c.lights@[i]).mac@,
            (#[trigger] c.lights@[j]).mac@,
        ) by {
            assert(!macs(i, j));
        }
    }
}

/// A clash is reported with the two that clash.
pub proof fn law_clashes_name_both(c: &Config, ips: Seq<Option<Ip>>, levels: LevelModel)
    requires
        c.lights@.len() <= usize::MAX,
        c.artnet.inputs@.len() < usize::MAX,
    ensures
        problem(c, ips, levels) matches Some(ConfigError::DuplicateMac { first, second }) ==> first
            < second < c.lights@.len() && same_mac(
            c.lights@[first as int].mac@,
            c.lights@[second as int].mac@,
        ),
        problem(c, ips, levels) matches Some(ConfigError::SameLabel { first, second }) ==> first
            < second <= c.artnet.inputs@.len() && c.artnet.label_at(first as int)
            == c.artnet.label_at(second as int),
        problem(c, ips, levels) matches Some(ConfigError::SameBind { first, second }) ==> first
            < second <= c.artnet.inputs@.len() && !can_share(
            &c.artnet,
            ips,
            first as int,
            second as int,
        ) && same_bind(&c.artnet, ips, first as int, second as int),
        problem(c, ips, levels) matches Some(ConfigError::WildcardShared { first, second })
            ==> first < second <= c.artnet.inputs@.len() && !can_share(
            &c.artnet,
            ips,
            first as int,
            second as int,
        ) && !same_bind(&c.artnet, ips, first as int, second as int),
        problem(c, ips, levels) matches Some(ConfigError::ZeroPort { input }) ==> input
            <= c.artnet.inputs@.len() && c.artnet.port_at(input as int) == 0,
        problem(c, ips, levels) == Some(ConfigError::TooManyInputs) ==> c.artnet.inputs@.len() > 7,
        problem(c, ips, levels) == Some(ConfigError::ZeroFlush) ==> c.ble.flush_hz == 0,
        problem(c, ips, levels) == Some(ConfigError::ZeroProbe) ==> c.ble.probe_secs == 0,
        problem(c, ips, levels) == Some(ConfigError::ZeroScanWindow) ==> c.ble.scan_window_secs == 0,
        problem(c, ips, levels) == Some(ConfigError::ZeroLogSize) ==> c.logging.max_size_mb == 0,
        problem(c, ips, levels) == Some(ConfigError::ZeroLogFiles) ==> c.logging.max_files == 0,
        problem(c, ips, levels) == Some(ConfigError::Silent) ==> !c.logging.console,
        problem(c, ips, levels) == Some(ConfigError::LogLevel) ==> !is_level(levels.level),
        problem(c, ips, levels) == Some(ConfigError::ConsoleLevel) ==> levels.console is Some
            && !is_level(levels.console->0),
        problem(c, ips, levels) == Some(ConfigError::FileLevel) ==> levels.file is Some && !is_level(
            levels.file->0,
        ),
        problem(c, ips, levels) == Some(ConfigError::MergeMode) ==> mode_named(lower(c.artnet.merge@))
            is None,
        problem(c, ips, levels) == Some(ConfigError::FailsafeMode) ==> FailsafeMode::named(
            c.failsafe.mode@,
        ) is None,
{
    law_the_first_wrong_light_is_reported(c.lights@, 0);
    law_the_first_clash_is_found(c.lights@.len() as int, mac_clash(c.lights@), 0, 1);
    law_port_zero_is_found(&c.artnet, 0);
    law_the_first_clash_is_found(c.artnet.input_count(), label_clash(&c.artnet), 0, 1);
    law_the_first_clash_is_found(c.artnet.input_count(), bind_clash(&c.artnet, ips), 0, 1);
}

/// The levels that count are those of the configuration, in lower case.
pub proof fn law_levels_in_lower_case(l: &Logging)
    ensures
        ascii_levels_of(l).level == lower(l.level@),
        l.console_level is Some ==> ascii_levels_of(l).console == Some(lower(l.console_level->0@)),
        l.console_level is None ==> ascii_levels_of(l).console is None,
        l.file_level is Some ==> ascii_levels_of(l).file == Some(lower(l.file_level->0@)),
        l.file_level is None ==> ascii_levels_of(l).file is None,
        levels_of(l).level == unicode_lower(l.level@),
        l.console_level is Some ==> levels_of(l).console == Some(unicode_lower(l.console_level->0@)),
        l.file_level is Some ==> levels_of(l).file == Some(unicode_lower(l.file_level->0@)),
{
}

/// Levels in lower case are those given, each in its own place.
pub proof fn law_given_levels(l: &Levels)
    ensures
        l@.level == l.level@,
        l.console is Some ==> l@.console == Some(l.console->0@),
        l.console is None ==> l@.console is None,
        l.file is Some ==> l@.file == Some(l.file->0@),
        l.file is None ==> l@.file is None,
{
}

} // verus!
