//! Bridge configuration.
//!
//! The binding identity of every light is its MAC address: stable across reboots
//! and independent of the order in which lights power on.

use vstd::prelude::*;
use vstd::string::*;
use crate::artnet::ARTNET_PORT;
use crate::text::{
    ascii_lower, ascii_only, ascii_upper, chars_of, dec, hex2, hex_digit_value, hex_value, lower,
    push_dec, push_hex2, same_chars, same_text, to_lower, to_unicode_upper, unicode_upper, upper,
};

pub mod laws;
pub mod validate;

verus! {

broadcast use vstd::string::group_string_axioms;

/// The whole configuration.
#[derive(Debug, Clone)]
pub struct Config {
    pub artnet: ArtNet,
    pub ble: Ble,
    pub failsafe: Failsafe,
    pub logging: Logging,
    pub lights: Vec<LightCfg>,
}

/// The ArtNet listeners and how their data is merged.
#[derive(Debug, Clone)]
pub struct ArtNet {
    /// Local IP to bind the primary listener to. `0.0.0.0` = all interfaces.
    pub bind_ip: String,
    /// UDP port of the primary listener.
    pub port: u16,
    /// Merge mode: `htp`, `lowest` or `ltp`.
    pub merge: String,
    /// Seconds an input may go silent before it leaves the merge; 0 = never.
    pub merge_timeout_secs: u64,
    /// Additional listeners.
    pub inputs: Vec<ArtNetInput>,
}

/// One extra ArtNet listener.
#[derive(Debug, Clone)]
pub struct ArtNetInput {
    /// Optional label used in logs (defaults to `input1`, `input2`, ..).
    pub name: Option<String>,
    /// Local IP to bind this input to.
    pub bind_ip: String,
    /// UDP port for this input.
    pub port: u16,
}

/// A fully resolved input: what to bind and how to label it in logs.
#[derive(Debug, Clone, PartialEq, Eq)]
pub struct ResolvedInput {
    pub bind_ip: String,
    pub port: u16,
    pub label: String,
}

/// Bluetooth settings.
#[derive(Debug, Clone)]
pub struct Ble {
    /// Adapter selector; `default` is the first adapter of the system.
    pub adapter: String,
    /// Most state updates pushed to each light per second.
    pub flush_hz: u32,
    /// Seconds between liveness probes.
    pub probe_secs: u64,
    /// Length of a discovery-scan burst, seconds.
    pub scan_window_secs: u64,
    /// Pause between bursts while a light is missing, seconds; 0 = none.
    pub scan_pause_secs: u64,
}

/// What happens when ArtNet stops.
#[derive(Debug, Clone)]
pub struct Failsafe {
    /// `hold`, `blackout` or `poweroff`.
    pub mode: String,
    /// Seconds without ArtNet before acting; 0 = never.
    pub timeout_secs: u64,
}

/// Logging settings.
#[derive(Debug, Clone)]
pub struct Logging {
    /// Default level.
    pub level: String,
    /// Log to the console.
    pub console: bool,
    /// Console level override.
    pub console_level: Option<String>,
    /// Log file path; absent or empty = no file.
    pub file: Option<String>,
    /// File level override.
    pub file_level: Option<String>,
    /// Rotate the log file once it exceeds this many megabytes.
    pub max_size_mb: u64,
    /// How many rotated files to keep.
    pub max_files: usize,
}

/// One light.
#[derive(Debug, Clone)]
pub struct LightCfg {
    /// Hardware MAC, e.g. `AA:BB:CC:DD:EE:FF`.
    pub mac: String,
    /// Optional human label.
    pub name: Option<String>,
    /// Protocol family: `auto`, `classic`, `infinity` or `home`.
    pub driver: String,
    /// DMX profile name.
    pub profile: String,
    /// 15-bit port-address.
    pub universe: u16,
    /// 1-based DMX start channel.
    pub address: u16,
    /// Power the light on when it first connects.
    pub power_on_connect: bool,
    /// Colour-temperature range, in hundreds of kelvin.
    pub cct_min: u8,
    pub cct_max: u8,
    /// 2 = MAC-embedded advanced-mode frames, anything else = direct frames.
    pub cmd_type: u8,
}

/// The log label of extra input `i` (counted from 0): its name, or its position.
pub open spec fn label_of(i: int, name: Option<String>) -> Seq<char> {
    match name {
        Some(n) => if n@.len() > 0 {
            n@
        } else {
            "input"@ + dec((i + 1) as nat)
        },
        None => "input"@ + dec((i + 1) as nat),
    }
}

impl ArtNet {
    /// The number of listeners.
    pub open spec fn input_count(&self) -> int {
        self.inputs@.len() as int + 1
    }

    /// Where listener `i` binds.
    pub open spec fn ip_at(&self, i: int) -> Seq<char> {
        if i == 0 {
            self.bind_ip@
        } else {
            self.inputs@[i - 1].bind_ip@
        }
    }

    /// The port of listener `i`.
    pub open spec fn port_at(&self, i: int) -> u16 {
        if i == 0 {
            self.port
        } else {
            self.inputs@[i - 1].port
        }
    }

    /// The label of listener `i`.
    pub open spec fn label_at(&self, i: int) -> Seq<char> {
        if i == 0 {
            "primary"@
        } else {
            label_of(i - 1, self.inputs@[i - 1].name)
        }
    }

    /// All listeners in input order: the primary one first, labelled `primary`,
    /// then each extra input.
    pub fn resolved_inputs(&self) -> (out: Vec<ResolvedInput>)
        ensures
            out@.len() == self.input_count(),
            forall|i: int|
                0 <= i < out@.len() ==> (#[trigger] out@[i]).bind_ip@ == self.ip_at(i)
                    && out@[i].port == self.port_at(i) && out@[i].label@ == self.label_at(i),
    {
        let mut out: Vec<ResolvedInput> = Vec::new();
        out.push(
            ResolvedInput {
                bind_ip: self.bind_ip.clone(),
                port: self.port,
                label: "primary".to_string(),
            },
        );
        let mut i: usize = 0;
        while i < self.inputs.len()
            invariant
                i <= self.inputs@.len(),
                out@.len() == i + 1,
                forall|k: int|
                    0 <= k < out@.len() ==> (#[trigger] out@[k]).bind_ip@ == self.ip_at(k)
                        && out@[k].port == self.port_at(k) && out@[k].label@ == self.label_at(k),
            decreases self.inputs.len() - i,
        {
            let inp: &ArtNetInput = &self.inputs[i];
            let label: String = match &inp.name {
                Some(n) => if n.as_str().is_empty() {
                    position_label(i)
                } else {
                    n.clone()
                },
                None => position_label(i),
            };
            out.push(ResolvedInput { bind_ip: inp.bind_ip.clone(), port: inp.port, label });
            i += 1;
        }
        out
    }
}

fn position_label(i: usize) -> (r: String)
    requires
        i < usize::MAX,
    ensures
        r@ == "input"@ + dec((i + 1) as nat),
{
    let mut r = "input".to_string();
    push_dec(&mut r, (i + 1) as u64);
    r
}

/// Sanity cap on extra inputs.
pub const MAX_EXTRA_INPUTS: usize = 7;

/// Default colour-temperature range: 3200K..5600K.
pub const DEFAULT_CCT_MIN: u8 = 32;

pub const DEFAULT_CCT_MAX: u8 = 56;

/// Largest `cmd_type` a light may declare.
pub const MAX_CMD_TYPE: u8 = 3;

/// The `cmd_type` of a light that does not declare one.
pub const DEFAULT_CMD_TYPE: u8 = 2;

/// Log levels.
pub const KNOWN_LOG_LEVELS: [&'static str; 5] = ["trace", "debug", "info", "warn", "error"];

/// DMX profile names.
pub const KNOWN_PROFILES: [&'static str; 8] = [
    "cct",
    "cct_gm",
    "hsi",
    "rgb",
    "rgbcw",
    "full",
    "advanced",
    "pixel",
];

/// Driver selectors.
pub const KNOWN_DRIVERS: [&'static str; 4] = ["auto", "classic", "infinity", "home"];

/// Failsafe mode names.
pub const KNOWN_FAILSAFE_MODES: [&'static str; 3] = ["hold", "blackout", "poweroff"];

/// Filename of the commented template that is shipped; it is never loaded.
pub const EXAMPLE_FILE: &'static str = "config.example.toml";

impl ArtNet {
    /// One listener on every interface, latest-takes-precedence, ten seconds.
    pub open spec fn is_default(&self) -> bool {
        &&& self.bind_ip@ == "0.0.0.0"@
        &&& self.port == 6454
        &&& self.merge@ == "ltp"@
        &&& self.merge_timeout_secs == 10
        &&& self.inputs@.len() == 0
    }
}

impl Default for ArtNet {
    fn default() -> (r: Self)
        ensures
            r.is_default(),
    {
        ArtNet {
            bind_ip: "0.0.0.0".to_string(),
            port: ARTNET_PORT,
            merge: "ltp".to_string(),
            merge_timeout_secs: 10,
            inputs: Vec::new(),
        }
    }
}

impl Ble {
    /// First adapter, 15 updates and a probe every 20 s, bursts of 8 s every 15 s.
    pub open spec fn is_default(&self) -> bool {
        &&& self.adapter@ == "default"@
        &&& self.flush_hz == 15
        &&& self.probe_secs == 20
        &&& self.scan_window_secs == 8
        &&& self.scan_pause_secs == 15
    }
}

impl Default for Ble {
    fn default() -> (r: Self)
        ensures
            r.is_default(),
    {
        Ble {
            adapter: "default".to_string(),
            flush_hz: 15,
            probe_secs: 20,
            scan_window_secs: 8,
            scan_pause_secs: 15,
        }
    }
}

impl Failsafe {
    /// Hold forever.
    pub open spec fn is_default(&self) -> bool {
        self.mode@ == "hold"@ && self.timeout_secs == 0
    }
}

impl Default for Failsafe {
    fn default() -> (r: Self)
        ensures
            r.is_default(),
    {
        Failsafe { mode: "hold".to_string(), timeout_secs: 0 }
    }
}

impl Logging {
    /// `info` to the console, no file; 10 MB and 5 files if there is one.
    pub open spec fn is_default(&self) -> bool {
        &&& self.level@ == "info"@
        &&& self.console
        &&& self.console_level is None
        &&& self.file is None
        &&& self.file_level is None
        &&& self.max_size_mb == 10
        &&& self.max_files == 5
    }
}

impl Default for Logging {
    fn default() -> (r: Self)
        ensures
            r.is_default(),
    {
        Logging {
            level: "info".to_string(),
            console: true,
            console_level: None,
            file: None,
            file_level: None,
            max_size_mb: 10,
            max_files: 5,
        }
    }
}

impl Config {
    /// Every section at its default, no lights.
    pub open spec fn is_default(&self) -> bool {
        &&& self.artnet.is_default()
        &&& self.ble.is_default()
        &&& self.failsafe.is_default()
        &&& self.logging.is_default()
        &&& self.lights@.len() == 0
    }

    /// What a command gets from a load attempt. A missing file falls back to the
    /// defaults; an existing one gives what loading it gave, error included, and
    /// is never replaced by defaults.
    pub fn for_command<E>(exists: bool, loaded: Result<Self, E>) -> (r: Result<Self, E>)
        ensures
            exists ==> r == loaded,
            !exists ==> (r matches Ok(c) && c.is_default()),
    {
        if exists {
            loaded
        } else {
            Ok(Self::default())
        }
    }
}

impl Default for Config {
    fn default() -> (r: Self)
        ensures
            r.is_default(),
    {
        Config {
            artnet: ArtNet::default(),
            ble: Ble::default(),
            failsafe: Failsafe::default(),
            logging: Logging::default(),
            lights: Vec::new(),
        }
    }
}

/// What lights do when ArtNet stops arriving.
#[derive(Debug, Clone, Copy, PartialEq, Eq, Structural)]
pub enum FailsafeMode {
    /// Keep the last commanded state forever.
    Hold,
    /// Force brightness to 0.
    Blackout,
    /// Send a power-off.
    PowerOff,
}

impl FailsafeMode {
    /// The config name of a mode.
    pub open spec fn name(self) -> Seq<char> {
        match self {
            FailsafeMode::Hold => "hold"@,
            FailsafeMode::Blackout => "blackout"@,
            FailsafeMode::PowerOff => "poweroff"@,
        }
    }

    /// The mode with a name; `None` where no mode has it.
    pub open spec fn named(s: Seq<char>) -> Option<FailsafeMode> {
        if s == "hold"@ {
            Some(FailsafeMode::Hold)
        } else if s == "blackout"@ {
            Some(FailsafeMode::Blackout)
        } else if s == "poweroff"@ {
            Some(FailsafeMode::PowerOff)
        } else {
            None
        }
    }

    /// The mode of a config name.
    pub fn parse(s: &str) -> (r: Option<Self>)
        ensures
            r == FailsafeMode::named(s@),
    {
        if same_text(s, "hold") {
            Some(FailsafeMode::Hold)
        } else if same_text(s, "blackout") {
            Some(FailsafeMode::Blackout)
        } else if same_text(s, "poweroff") {
            Some(FailsafeMode::PowerOff)
        } else {
            None
        }
    }

    /// The config name of this mode.
    pub fn as_str(&self) -> (r: &'static str)
        ensures
            r@ == self.name(),
    {
        match self {
            FailsafeMode::Hold => "hold",
            FailsafeMode::Blackout => "blackout",
            FailsafeMode::PowerOff => "poweroff",
        }
    }
}

/// A failsafe mode's name stands for that mode.
pub proof fn law_failsafe_name_parses_back(m: FailsafeMode)
    ensures
        FailsafeMode::named(m.name()) == Some(m),
{
    reveal_strlit("hold");
    reveal_strlit("blackout");
    reveal_strlit("poweroff");
    assert("hold"@.len() == 4 && "blackout"@.len() == 8 && "poweroff"@.len() == 8);
    assert("blackout"@[0] == 'b' && "poweroff"@[0] == 'p');
}

/// The hexadecimal digits of a text, in order, as numbers.
pub open spec fn hex_digits(s: Seq<char>) -> Seq<u8>
    decreases s.len(),
{
    if s.len() == 0 {
        seq![]
    } else {
        match hex_digit_value(s.last()) {
            Some(v) => hex_digits(s.drop_last()).push(v),
            None => hex_digits(s.drop_last()),
        }
    }
}

/// The six bytes of a MAC text: twelve hexadecimal digits, anything else between
/// them ignored.
pub open spec fn mac_bytes(s: Seq<char>) -> Option<Seq<u8>> {
    let d = hex_digits(s);
    if d.len() == 12 {
        Some(Seq::new(6, |i: int| (d[2 * i] * 16 + d[2 * i + 1]) as u8))
    } else {
        None
    }
}

/// A text that is no MAC: it holds `digits` hexadecimal digits instead of twelve.
#[derive(Debug, Clone, Copy, PartialEq, Eq, Structural)]
pub struct MacError {
    pub digits: usize,
}

/// Parse a MAC text (any separators, any case) into 6 bytes.
pub fn parse_mac(s: &str) -> (r: Result<[u8; 6], MacError>)
    ensures
        r matches Ok(m) ==> mac_bytes(s@) == Some(m@),
        r matches Err(e) ==> mac_bytes(s@) is None && e.digits == hex_digits(s@).len(),
{
    let chars = chars_of(s);
    let mut d: Vec<u8> = Vec::new();
    let mut i: usize = 0;
    while i < chars.len()
        invariant
            chars@ == s@,
            i <= chars@.len(),
            d@ == hex_digits(s@.take(i as int)),
            forall|k: int| 0 <= k < d@.len() ==> #[trigger] d@[k] < 16,
        decreases chars.len() - i,
    {
        assert(s@.take(i + 1).drop_last() =~= s@.take(i as int));
        if let Some(v) = hex_value(chars[i]) {
            d.push(v);
        }
        i += 1;
    }
    assert(s@.take(s@.len() as int) =~= s@);
    if d.len() != 12 {
        return Err(MacError { digits: d.len() });
    }
    let m: [u8; 6] = [
        d[0] * 16 + d[1],
        d[2] * 16 + d[3],
        d[4] * 16 + d[5],
        d[6] * 16 + d[7],
        d[8] * 16 + d[9],
        d[10] * 16 + d[11],
    ];
    assert(m@ =~= mac_bytes(s@)->0);
    Ok(m)
}

/// Six bytes in upper-case colon form.
pub open spec fn colon_form(b: Seq<u8>) -> Seq<char> {
    hex2(b[0], true) + ":"@ + hex2(b[1], true) + ":"@ + hex2(b[2], true) + ":"@ + hex2(b[3], true)
        + ":"@ + hex2(b[4], true) + ":"@ + hex2(b[5], true)
}

/// The canonical form of a MAC text; what is no MAC goes to upper case.
pub open spec fn canonical_mac(s: Seq<char>, upper: Seq<char>) -> Seq<char> {
    match mac_bytes(s) {
        Some(b) => colon_form(b),
        None => upper,
    }
}

/// Six bytes in upper-case colon form.
pub fn format_mac(b: [u8; 6]) -> (r: String)
    ensures
        r@ == colon_form(b@),
{
    let mut r = String::new();
    push_hex2(&mut r, b[0], true);
    r.append(":");
    push_hex2(&mut r, b[1], true);
    r.append(":");
    push_hex2(&mut r, b[2], true);
    r.append(":");
    push_hex2(&mut r, b[3], true);
    r.append(":");
    push_hex2(&mut r, b[4], true);
    r.append(":");
    push_hex2(&mut r, b[5], true);
    assert(r@ =~= colon_form(b@));
    r
}

/// Canonical upper-case colon form, e.g. `AA:BB:CC:DD:EE:FF`.
pub fn normalize_mac(s: &str) -> (r: String)
    ensures
        r@ == canonical_mac(s@, unicode_upper(s@)),
        ascii_only(s@) ==> r@ == canonical_mac(s@, upper(s@)),
{
    match parse_mac(s) {
        Ok(b) => format_mac(b),
        Err(_) => to_unicode_upper(s),
    }
}

/// Whether two MAC texts name the same light: the same bytes, or, where one is no
/// MAC, the same text up to ASCII case.
pub open spec fn same_mac(a: Seq<char>, b: Seq<char>) -> bool {
    match (mac_bytes(a), mac_bytes(b)) {
        (Some(x), Some(y)) => x == y,
        _ => lower(a) == lower(b),
    }
}

/// Compare two MAC texts regardless of case and separators.
pub fn mac_eq(a: &str, b: &str) -> (r: bool)
    ensures
        r == same_mac(a@, b@),
{
    if let Ok(x) = parse_mac(a) {
        if let Ok(y) = parse_mac(b) {
            let same = x[0] == y[0] && x[1] == y[1] && x[2] == y[2] && x[3] == y[3] && x[4] == y[4]
                && x[5] == y[5];
            proof {
                if same {
                    assert(x@ =~= y@);
                } else if x@ == y@ {
                    assert(x@[0] == y@[0] && x@[1] == y@[1] && x@[2] == y@[2]);
                    assert(x@[3] == y@[3] && x@[4] == y@[4] && x@[5] == y@[5]);
                }
            }
            return same;
        }
    }
    let x = to_lower(a);
    let y = to_lower(b);
    same_chars(&x, &y)
}

proof fn lemma_hex_digits_concat(a: Seq<char>, b: Seq<char>)
    ensures
        hex_digits(a + b) == hex_digits(a) + hex_digits(b),
    decreases b.len(),
{
    if b.len() == 0 {
        assert(a + b =~= a);
        assert(hex_digits(a) + hex_digits(b) =~= hex_digits(a));
    } else {
        assert((a + b).drop_last() =~= a + b.drop_last());
        lemma_hex_digits_concat(a, b.drop_last());
        assert(hex_digits(a + b) =~= hex_digits(a) + hex_digits(b));
    }
}

proof fn lemma_hex_pair(x: u8)
    ensures
        hex_digits(hex2(x, true)) == seq![x / 16, x % 16],
{
    let s = hex2(x, true);
    reveal_with_fuel(hex_digits, 3);
    assert(s.drop_last().drop_last() =~= Seq::<char>::empty());
    assert(hex_digit_value(s[0]) == Some(x / 16));
    assert(hex_digit_value(s[1]) == Some(x % 16));
    assert(s.drop_last().last() == s[0]);
    assert(hex_digits(s) =~= seq![x / 16, x % 16]);
}

proof fn lemma_colon_pair(front: Seq<char>, d: Seq<u8>, x: u8)
    requires
        hex_digits(front) == d,
    ensures
        hex_digits(front + ":"@ + hex2(x, true)) == d + seq![x / 16, x % 16],
{
    reveal_strlit(":");
    lemma_hex_pair(x);
    lemma_hex_digits_concat(front, ":"@);
    reveal_with_fuel(hex_digits, 2);
    assert(":"@.drop_last() =~= Seq::<char>::empty());
    assert(":"@.last() == ':');
    assert(hex_digits(":"@) =~= Seq::<u8>::empty());
    assert(hex_digits(front + ":"@) =~= d);
    lemma_hex_digits_concat(front + ":"@, hex2(x, true));
}

/// The canonical form reads back as the same six bytes, so a canonical MAC equals
/// every spelling it came from.
pub proof fn law_canonical_mac_reads_back(b: Seq<u8>)
    requires
        b.len() == 6,
    ensures
        mac_bytes(colon_form(b)) == Some(b),
{
    lemma_hex_pair(b[0]);
    let f1 = hex2(b[0], true);
    let d1 = seq![b[0] / 16, b[0] % 16];
    lemma_colon_pair(f1, d1, b[1]);
    let f2 = f1 + ":"@ + hex2(b[1], true);
    let d2 = d1 + seq![b[1] / 16, b[1] % 16];
    lemma_colon_pair(f2, d2, b[2]);
    let f3 = f2 + ":"@ + hex2(b[2], true);
    let d3 = d2 + seq![b[2] / 16, b[2] % 16];
    lemma_colon_pair(f3, d3, b[3]);
    let f4 = f3 + ":"@ + hex2(b[3], true);
    let d4 = d3 + seq![b[3] / 16, b[3] % 16];
    lemma_colon_pair(f4, d4, b[4]);
    let f5 = f4 + ":"@ + hex2(b[4], true);
    let d5 = d4 + seq![b[4] / 16, b[4] % 16];
    lemma_colon_pair(f5, d5, b[5]);
    let d6 = d5 + seq![b[5] / 16, b[5] % 16];
    assert(hex_digits(colon_form(b)) == d6);
    assert(mac_bytes(colon_form(b))->0 =~= b);
}

proof fn lemma_lower_keeps_digits(s: Seq<char>)
    ensures
        hex_digits(lower(s)) == hex_digits(s),
        hex_digits(upper(s)) == hex_digits(s),
    decreases s.len(),
{
    if s.len() > 0 {
        lemma_lower_keeps_digits(s.drop_last());
        assert(lower(s).drop_last() =~= lower(s.drop_last()));
        assert(upper(s).drop_last() =~= upper(s.drop_last()));
        assert(hex_digit_value(ascii_lower(s.last())) == hex_digit_value(s.last()));
        assert(hex_digit_value(ascii_upper(s.last())) == hex_digit_value(s.last()));
    }
}

/// Texts that are equal up to ASCII case hold the same digits.
proof fn lemma_same_case_same_digits(a: Seq<char>, b: Seq<char>)
    requires
        lower(a) == lower(b),
    ensures
        hex_digits(a) == hex_digits(b),
{
    lemma_lower_keeps_digits(a);
    lemma_lower_keeps_digits(b);
}

/// Spellings that name one light stay one light: the comparison is reflexive,
/// symmetric and transitive on all texts. A MAC equals its canonical form, and so does an
/// ASCII text; two MACs, and two ASCII texts, are equal exactly where their canonical
/// forms are.
pub proof fn law_mac_equality(a: Seq<char>, b: Seq<char>, c: Seq<char>)
    ensures
        same_mac(a, a),
        same_mac(a, b) == same_mac(b, a),
        same_mac(a, b) && same_mac(b, c) ==> same_mac(a, c),
        mac_bytes(a) is Some ==> same_mac(a, colon_form(mac_bytes(a)->0)),
        mac_bytes(a) is Some && mac_bytes(b) is Some ==> same_mac(a, b) == (colon_form(
            mac_bytes(a)->0,
        ) == colon_form(mac_bytes(b)->0)),
        ascii_only(a) ==> same_mac(a, canonical_mac(a, upper(a))),
        ascii_only(a) && ascii_only(b) ==> same_mac(a, b) == (canonical_mac(a, upper(a))
            == canonical_mac(b, upper(b))),
{
    if lower(a) == lower(b) {
        lemma_same_case_same_digits(a, b);
    }
    if lower(b) == lower(c) {
        lemma_same_case_same_digits(b, c);
    }
    if mac_bytes(a) is Some {
        law_canonical_mac_reads_back(mac_bytes(a)->0);
    }
    if mac_bytes(b) is Some {
        law_canonical_mac_reads_back(mac_bytes(b)->0);
    }
    lemma_lower_keeps_digits(a);
    lemma_lower_keeps_digits(b);
    lemma_case_round(a, b);
    assert(lower(upper(a)) =~= lower(a));
}

/// Two texts agree in lower case exactly where they agree in upper case.
proof fn lemma_case_round(a: Seq<char>, b: Seq<char>)
    ensures
        (lower(a) == lower(b)) == (upper(a) == upper(b)),
{
    if lower(a) == lower(b) {
        assert(lower(a).len() == lower(b).len());
        assert forall|i: int| 0 <= i < a.len() implies #[trigger] upper(a)[i] == upper(b)[i] by {
            assert(lower(a)[i] == lower(b)[i]);
            assert(upper(a)[i] == ascii_upper(a[i]) && upper(b)[i] == ascii_upper(b[i]));
        }
        assert(upper(a) =~= upper(b));
    }
    if upper(a) == upper(b) {
        assert(upper(a).len() == upper(b).len());
        assert forall|i: int| 0 <= i < a.len() implies #[trigger] lower(a)[i] == lower(b)[i] by {
            assert(upper(a)[i] == upper(b)[i]);
        }
        assert(lower(a) =~= lower(b));
    }
}

/// How a character stands in a TOML basic string: quotes and backslashes are
/// escaped, control characters (DEL among them) become blanks.
pub open spec fn toml_char(c: char) -> Seq<char> {
    if c == '\\' {
        seq!['\\', '\\']
    } else if c == '"' {
        seq!['\\', '"']
    } else if (c as u32) < 0x20 || c as u32 == 0x7f {
        seq![' ']
    } else {
        seq![c]
    }
}

/// A text as the inside of a TOML basic string.
pub open spec fn toml_text(s: Seq<char>) -> Seq<char>
    decreases s.len(),
{
    if s.len() == 0 {
        seq![]
    } else {
        toml_text(s.drop_last()) + toml_char(s.last())
    }
}

/// Escape a text for embedding in a TOML basic (double-quoted) string.
pub fn toml_escape(s: &str) -> (r: String)
    ensures
        r@ == toml_text(s@),
{
    let chars = chars_of(s);
    let mut out = String::new();
    let mut i: usize = 0;
    while i < chars.len()
        invariant
            chars@ == s@,
            i <= chars@.len(),
            out@ == toml_text(s@.take(i as int)),
        decreases chars.len() - i,
    {
        assert(s@.take(i + 1).drop_last() =~= s@.take(i as int));
        let c: char = chars[i];
        if c == '\\' {
            out.push('\\');
            out.push('\\');
        } else if c == '"' {
            out.push('\\');
            out.push('"');
        } else if (c as u32) < 0x20 || c as u32 == 0x7f {
            out.push(' ');
        } else {
            out.push(c);
        }
        i += 1;
        assert(out@ =~= toml_text(s@.take(i as int)));
    }
    assert(s@.take(s@.len() as int) =~= s@);
    out
}

/// A text with its control characters turned into blanks.
pub open spec fn blanked(s: Seq<char>) -> Seq<char> {
    Seq::new(
        s.len(),
        |i: int|
            if (s[i] as u32) < 0x20 || s[i] as u32 == 0x7f {
                ' '
            } else {
                s[i]
            },
    )
}

/// Reads the inside of a basic string from the front: a backslash stands for the
/// character behind it. `None` where a quote stands bare or a backslash ends it.
pub open spec fn unescaped(s: Seq<char>) -> Option<Seq<char>>
    decreases s.len(),
{
    if s.len() == 0 {
        Some(seq![])
    } else if s[0] == '\\' {
        if s.len() == 1 {
            None
        } else {
            match unescaped(s.skip(2)) {
                Some(t) => Some(seq![s[1]] + t),
                None => None,
            }
        }
    } else if s[0] == '"' {
        None
    } else {
        match unescaped(s.skip(1)) {
            Some(t) => Some(seq![s[0]] + t),
            None => None,
        }
    }
}

proof fn lemma_toml_front(s: Seq<char>)
    requires
        s.len() > 0,
    ensures
        toml_text(s) == toml_char(s[0]) + toml_text(s.skip(1)),
    decreases s.len(),
{
    if s.len() == 1 {
        assert(s.drop_last() =~= Seq::<char>::empty());
        assert(s.skip(1) =~= Seq::<char>::empty());
        assert(toml_text(s) =~= toml_char(s[0]) + toml_text(s.skip(1)));
    } else {
        lemma_toml_front(s.drop_last());
        assert(s.drop_last().skip(1) =~= s.skip(1).drop_last());
        assert(toml_text(s) =~= toml_char(s[0]) + toml_text(s.skip(1)));
    }
}

/// Reading an escaped text gives the text back, control characters blanked: no
/// quote, backslash or control character of a name can break the string it
/// stands in.
pub proof fn law_toml_escape_reads_back(s: Seq<char>)
    ensures
        unescaped(toml_text(s)) == Some(blanked(s)),
    decreases s.len(),
{
    if s.len() == 0 {
        assert(blanked(s) =~= Seq::<char>::empty());
    } else {
        lemma_toml_front(s);
        law_toml_escape_reads_back(s.skip(1));
        let rest = toml_text(s.skip(1));
        let whole = toml_char(s[0]) + rest;
        assert(blanked(s) =~= seq![blanked(s)[0]] + blanked(s.skip(1)));
        if toml_char(s[0]).len() == 2 {
            assert(whole.skip(2) =~= rest);
        } else {
            assert(whole.skip(1) =~= rest);
        }
    }
}

/// An escaped text holds no control character.
pub proof fn law_toml_escape_has_no_controls(s: Seq<char>, i: int)
    requires
        0 <= i < toml_text(s).len(),
    ensures
        toml_text(s)[i] as u32 >= 0x20,
        toml_text(s)[i] as u32 != 0x7f,
    decreases s.len(),
{
    if s.len() > 0 {
        let front = toml_text(s.drop_last());
        if i < front.len() {
            law_toml_escape_has_no_controls(s.drop_last(), i);
        }
    }
}

/// The name line of a light block; none for an absent or empty name.
pub open spec fn name_line(name: Option<String>) -> Seq<char> {
    match name {
        Some(n) => if n@.len() > 0 {
            "name = \""@ + toml_text(n@) + "\"\n"@
        } else {
            ""@
        },
        None => ""@,
    }
}

/// A config text, ended by a line break where it is not empty.
pub open spec fn line_ended(text: Seq<char>) -> Seq<char> {
    if text.len() > 0 && text.last() != '\n' {
        text.push('\n')
    } else {
        text
    }
}

/// The text of a boolean.
pub open spec fn bool_text(b: bool) -> Seq<char> {
    if b {
        "true"@
    } else {
        "false"@
    }
}

/// The block that declares a light, with its MAC given.
pub open spec fn light_block(mac: Seq<char>, l: &LightCfg) -> Seq<char> {
    "\n[[lights]]\nmac = \""@ + mac + "\"\n"@ + name_line(l.name) + "driver = \""@ + l.driver@
        + "\"\nprofile = \""@ + l.profile@ + "\"\nuniverse = "@ + dec(l.universe as nat)
        + "\naddress = "@ + dec(l.address as nat) + "\npower_on_connect = "@ + bool_text(
        l.power_on_connect,
    ) + "\ncct_min = "@ + dec(l.cct_min as nat) + "\ncct_max = "@ + dec(l.cct_max as nat)
        + "\ncmd_type = "@ + dec(l.cmd_type as nat) + "\n"@
}

/// A config text with the block of one more light behind it. What was there
/// stays as it is, comments and all.
pub fn append_light(text: &str, light: &LightCfg) -> (r: String)
    ensures
        r@ == line_ended(text@) + light_block(
            canonical_mac(light.mac@, unicode_upper(light.mac@)),
            light,
        ),
        ascii_only(light.mac@) ==> r@ == line_ended(text@) + light_block(
            canonical_mac(light.mac@, upper(light.mac@)),
            light,
        ),
{
    let chars = chars_of(text);
    let mut out: String = text.to_owned();
    if chars.len() > 0 && chars[chars.len() - 1] != '\n' {
        out.push('\n');
    }
    let block = light_text(light);
    out.append(block.as_str());
    out
}

fn light_text(light: &LightCfg) -> (out: String)
    ensures
        out@ == light_block(canonical_mac(light.mac@, unicode_upper(light.mac@)), light),
        ascii_only(light.mac@) ==> out@ == light_block(
            canonical_mac(light.mac@, upper(light.mac@)),
            light,
        ),
{
    let mac = normalize_mac(light.mac.as_str());
    let mut out = "\n[[lights]]\nmac = \"".to_string();
    out.append(mac.as_str());
    out.append("\"\n");
    push_name_line(&mut out, &light.name);
    out.append("driver = \"");
    out.append(light.driver.as_str());
    out.append("\"\nprofile = \"");
    out.append(light.profile.as_str());
    out.append("\"\nuniverse = ");
    push_dec(&mut out, light.universe as u64);
    out.append("\naddress = ");
    push_dec(&mut out, light.address as u64);
    out.append("\npower_on_connect = ");
    out.append(
        if light.power_on_connect {
            "true"
        } else {
            "false"
        },
    );
    out.append("\ncct_min = ");
    push_dec(&mut out, light.cct_min as u64);
    out.append("\ncct_max = ");
    push_dec(&mut out, light.cct_max as u64);
    out.append("\ncmd_type = ");
    push_dec(&mut out, light.cmd_type as u64);
    out.append("\n");
    out
}

fn push_name_line(out: &mut String, name: &Option<String>)
    ensures
        final(out)@ == old(out)@ + name_line(*name),
{
    proof {
        reveal_strlit("");
    }
    if let Some(n) = name {
        if !n.as_str().is_empty() {
            let e = toml_escape(n.as_str());
            out.append("name = \"");
            out.append(e.as_str());
            out.append("\"\n");
            assert(out@ =~= old(out)@ + name_line(*name));
            return;
        }
    }
    assert(""@ =~= Seq::<char>::empty());
    assert(out@ =~= old(out)@ + name_line(*name));
}

/// Adding a light keeps every character of the config that was there.
pub proof fn law_append_keeps_the_text(text: Seq<char>, block: Seq<char>)
    ensures
        (line_ended(text) + block).take(text.len() as int) == text,
{
    assert((line_ended(text) + block).take(text.len() as int) =~= text);
}

} // verus!
