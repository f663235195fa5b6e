//! Decode the status notifications a light pushes on its notify characteristic.
//!
//! Replies have the frame shape of commands, `[0x78, opcode, len, payload..,
//! checksum]`, with a reply opcode. Unknown and short frames decode to `None`.

use vstd::prelude::*;
use vstd::string::*;
use crate::text::{dec, hex2, int_dec, push_dec, push_hex2, push_int_dec};
use super::{checksum, ck, well_framed};

verus! {

broadcast use vstd::string::group_string_axioms;

/// A decoded status reply.
#[derive(Debug, Clone, Copy, PartialEq, Eq, Structural)]
pub enum Reply {
    /// Firmware version. `by_mac` tells the MAC-addressed reply (version at bytes
    /// 11..14) from the direct one (bytes 5..8).
    Version { major: u8, minor: u8, patch: u8, by_mac: bool },
    /// Power status.
    Power { on: bool },
    /// Current mode byte and power.
    State { mode: u8, on: bool },
    /// Battery percentage 0..=100.
    Battery { percent: u8 },
    /// A battery reply above 100: a flag for mains or external power.
    ExternalPower { raw: u8 },
    /// Temperature in degrees Celsius (the wire byte is `celsius + 50`).
    Temperature { celsius: i16 },
}

impl Reply {
    /// The log line of a reply.
    pub open spec fn summary_text(&self) -> Seq<char> {
        match *self {
            Reply::Version { major, minor, patch, by_mac } => "firmware "@ + dec(major as nat)
                + "."@ + dec(minor as nat) + "."@ + dec(patch as nat) + if by_mac {
                " (by-MAC)"@
            } else {
                ""@
            },
            Reply::Power { on } => "power "@ + if on {
                "on"@
            } else {
                "off"@
            },
            Reply::State { mode, on } => "state mode="@ + dec(mode as nat) + " power="@ + if on {
                "on"@
            } else {
                "off"@
            },
            Reply::Battery { percent } => "battery "@ + dec(percent as nat) + "%"@,
            Reply::ExternalPower { raw } => "external/mains power (flag 0x"@ + hex2(raw, false)
                + ")"@,
            Reply::Temperature { celsius } => "temperature "@ + int_dec(celsius as int) + "°C"@,
        }
    }

    /// A concise one-line summary for logs, e.g. `"battery 80%"` or
    /// `"firmware 2.0.5"`.
    pub fn summary(&self) -> (r: String)
        ensures
            r@ == self.summary_text(),
    {
        match self {
            Reply::Version { major, minor, patch, by_mac } => {
                let mut s = "firmware ".to_string();
                push_dec(&mut s, *major as u64);
                s.append(".");
                push_dec(&mut s, *minor as u64);
                s.append(".");
                push_dec(&mut s, *patch as u64);
                s.append(
                    if *by_mac {
                        " (by-MAC)"
                    } else {
                        ""
                    },
                );
                s
            },
            Reply::Power { on } => {
                let mut s = "power ".to_string();
                s.append(
                    if *on {
                        "on"
                    } else {
                        "off"
                    },
                );
                s
            },
            Reply::State { mode, on } => {
                let mut s = "state mode=".to_string();
                push_dec(&mut s, *mode as u64);
                s.append(" power=");
                s.append(
                    if *on {
                        "on"
                    } else {
                        "off"
                    },
                );
                s
            },
            Reply::Battery { percent } => {
                let mut s = "battery ".to_string();
                push_dec(&mut s, *percent as u64);
                s.append("%");
                s
            },
            Reply::ExternalPower { raw } => {
                let mut s = "external/mains power (flag 0x".to_string();
                push_hex2(&mut s, *raw, false);
                s.append(")");
                s
            },
            Reply::Temperature { celsius } => {
                let mut s = "temperature ".to_string();
                push_int_dec(&mut s, *celsius as i64);
                s.append("°C");
                s
            },
        }
    }
}

/// Whether the frame holds all the bytes its length byte declares.
pub open spec fn complete(data: Seq<u8>) -> bool {
    data.len() >= 3 + data[2] + 1
}

/// Whether a complete frame fails its checksum. A frame cut short of its
/// declared length cannot be checked and is never corrupt in this sense.
pub open spec fn corrupt(data: Seq<u8>) -> bool {
    complete(data) && data[3 + data[2]] != ck(data.take(3 + data[2]))
}

/// What the reply opcode and the bytes at its offsets say, checksum aside.
pub open spec fn decoded(data: Seq<u8>) -> Option<Reply> {
    let op = data[1];
    if op == 0x00 && data.len() >= 8 {
        Some(Reply::Version { major: data[5], minor: data[6], patch: data[7], by_mac: false })
    } else if op == 0x02 && data.len() >= 4 {
        Some(Reply::Power { on: data[3] == 1 })
    } else if op == 0x04 && data.len() >= 11 {
        Some(Reply::State { mode: data[9], on: data[10] == 1 })
    } else if op == 0x05 && data.len() >= 10 {
        if data[9] <= 100 {
            Some(Reply::Battery { percent: data[9] })
        } else {
            Some(Reply::ExternalPower { raw: data[9] })
        }
    } else if op == 0x08 && data.len() >= 14 {
        Some(Reply::Version { major: data[11], minor: data[12], patch: data[13], by_mac: true })
    } else if op == 0x12 && data.len() >= 10 {
        Some(Reply::Temperature { celsius: (data[9] - 50) as i16 })
    } else {
        None
    }
}

/// The reply a notification stands for.
pub open spec fn reply_of(data: Seq<u8>) -> Option<Reply> {
    if data.len() < 3 || data[0] != 0x78 || corrupt(data) {
        None
    } else {
        decoded(data)
    }
}

/// Decode one notification frame. `None` for frames that are not ours, are too
/// short for their reply code, fail their checksum, or use an unknown code.
///
/// The checksum is verified only when the full frame its length byte declares
/// is present: notifications routinely arrive cut at the 20-byte boundary of
/// the default MTU, and those still decode.
pub fn parse(data: &[u8]) -> (r: Option<Reply>)
    ensures
        r == reply_of(data@),
{
    if data.len() < 3 || data[0] != 0x78 {
        return None;
    }
    let full: usize = 3 + data[2] as usize + 1;
    if data.len() >= full {
        let body: &[u8] = vstd::slice::slice_subrange(data, 0, full - 1);
        assert(body@ =~= data@.take(full - 1));
        let sum: u8 = checksum(body);
        if sum != data[full - 1] {
            return None;
        }
    }
    match data[1] {
        0x00 => if data.len() >= 8 {
            Some(Reply::Version { major: data[5], minor: data[6], patch: data[7], by_mac: false })
        } else {
            None
        },
        0x02 => if data.len() >= 4 {
            Some(Reply::Power { on: data[3] == 1 })
        } else {
            None
        },
        0x04 => if data.len() >= 11 {
            Some(Reply::State { mode: data[9], on: data[10] == 1 })
        } else {
            None
        },
        0x05 => if data.len() >= 10 {
            let pct: u8 = data[9];
            if pct <= 100 {
                Some(Reply::Battery { percent: pct })
            } else {
                Some(Reply::ExternalPower { raw: pct })
            }
        } else {
            None
        },
        0x08 => if data.len() >= 14 {
            Some(Reply::Version { major: data[11], minor: data[12], patch: data[13], by_mac: true })
        } else {
            None
        },
        0x12 => if data.len() >= 10 {
            Some(Reply::Temperature { celsius: data[9] as i16 - 50 })
        } else {
            None
        },
        _ => None,
    }
}

/// A frame built by the encoders is never taken for a corrupt one.
pub proof fn law_well_framed_is_not_corrupt(f: Seq<u8>)
    requires
        well_framed(f),
    ensures
        !corrupt(f),
        f[0] == 0x78 ==> reply_of(f) == decoded(f),
{
    assert(f.take(3 + f[2]) =~= f.drop_last());
}

/// How many bytes of a frame its opcode needs.
pub open spec fn needed(op: u8) -> int {
    if op == 0x00 {
        8
    } else if op == 0x02 {
        4
    } else if op == 0x04 {
        11
    } else if op == 0x05 || op == 0x12 {
        10
    } else if op == 0x08 {
        14
    } else {
        3
    }
}

/// Cutting a frame short of its declared length, but not before the bytes its
/// opcode needs, leaves what it decodes to unchanged.
pub proof fn law_truncation_keeps_the_reply(f: Seq<u8>, n: int)
    requires
        3 <= n <= f.len(),
        needed(f[1]) <= n,
        !corrupt(f),
    ensures
        !complete(f.take(n)) ==> reply_of(f.take(n)) == reply_of(f),
{
}

/// A complete frame with one changed byte, the length byte aside, never decodes.
pub proof fn law_corrupt_reply_is_rejected(f: Seq<u8>, i: int, b: u8)
    requires
        well_framed(f),
        0 <= i < f.len(),
        i != 2,
        b != f[i],
    ensures
        reply_of(f.update(i, b)) is None,
{
    super::law_single_byte_corruption_is_detected(f, i, b);
    let g = f.update(i, b);
    assert(g.take(3 + g[2]) =~= g.drop_last());
}

} // verus!
