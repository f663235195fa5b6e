//! Which log filter and which rotation a configuration asks for.

use vstd::prelude::*;
use vstd::string::*;
use crate::text::{ascii_only, lower, spells, to_lower, to_unicode_lower, unicode_lower};

verus! {

broadcast use vstd::string::group_string_axioms;

/// Local time of a log line, as a chrono format.
pub const TIME_FORMAT: &'static str = "%m-%d %H:%M:%S";

pub const RANK_DEBUG: usize = 3;

pub const RANK_TRACE: usize = 4;

/// The level names, from quiet to verbose.
pub open spec fn level_name(rank: int) -> Seq<char> {
    if rank == 0 {
        "error"@
    } else if rank == 1 {
        "warn"@
    } else if rank == 2 {
        "info"@
    } else if rank == 3 {
        "debug"@
    } else {
        "trace"@
    }
}

/// The rank of a level name in lower case; an unknown name ranks lowest.
pub open spec fn rank_of(s: Seq<char>) -> int {
    if s == "warn"@ {
        1
    } else if s == "info"@ {
        2
    } else if s == "debug"@ {
        3
    } else if s == "trace"@ {
        4
    } else {
        0
    }
}

/// Rank a level name, whatever the case of its ASCII letters. Unknown names rank
/// lowest, so that they never hold a sink above what `-v` asked for.
pub fn level_rank(level: &str) -> (r: usize)
    ensures
        r == rank_of(lower(level@)),
        r <= 4,
{
    let s = to_lower(level);
    if spells(&s, "warn") {
        1
    } else if spells(&s, "info") {
        2
    } else if spells(&s, "debug") {
        3
    } else if spells(&s, "trace") {
        4
    } else {
        0
    }
}

/// The level that `-v` guarantees, given once or more often.
pub open spec fn raised(rank: int, verbosity: u8) -> int {
    if verbosity == 1 {
        if rank >= 3 {
            rank
        } else {
            3
        }
    } else {
        4
    }
}

/// The filter directive of a sink. Without `-v` the configured level, in lower
/// case, decides alone.
pub open spec fn directive(level: Seq<char>, lowered: Seq<char>, verbosity: u8) -> Seq<char> {
    if verbosity == 0 {
        "warn,neewer_bridge="@ + lowered
    } else {
        let name = level_name(raised(rank_of(lower(level)), verbosity));
        if verbosity == 1 {
            "warn,neewer_bridge="@ + name
        } else {
            "info,neewer_bridge="@ + name + ",btleplug=debug"@
        }
    }
}

/// The filter directive for one sink: `-v` raises the level to debug, `-vv` to
/// trace with the Bluetooth logs; neither lowers what the config asked for.
pub fn filter_directive(level: &str, verbosity: u8) -> (r: String)
    ensures
        r@ == directive(level@, unicode_lower(level@), verbosity),
        ascii_only(level@) ==> r@ == directive(level@, lower(level@), verbosity),
{
    let lowered = to_unicode_lower(level);
    directive_for(level, lowered.as_str(), verbosity)
}

/// The filter directive for one sink, with the level in lower case given.
pub fn directive_for(level: &str, lowered: &str, verbosity: u8) -> (r: String)
    ensures
        r@ == directive(level@, lowered@, verbosity),
{
    if verbosity == 0 {
        let mut r = "warn,neewer_bridge=".to_string();
        r.append(lowered);
        return r;
    }
    let rank: usize = level_rank(level);
    if verbosity == 1 {
        let mut r = "warn,neewer_bridge=".to_string();
        r.append(
            if rank > RANK_DEBUG {
                "trace"
            } else {
                "debug"
            },
        );
        r
    } else {
        let mut r = "info,neewer_bridge=".to_string();
        r.append("trace");
        r.append(",btleplug=debug");
        r
    }
}

/// `-v` never lowers a configured level, and more of it never lowers it either.
pub proof fn law_verbosity_only_raises(rank: int, verbosity: u8)
    requires
        0 <= rank <= 4,
        verbosity > 0,
    ensures
        raised(rank, verbosity) >= rank,
        raised(rank, 2) >= raised(rank, 1) >= 3,
        rank_of(level_name(rank)) == rank,
{
    reveal_strlit("error");
    reveal_strlit("warn");
    reveal_strlit("info");
    reveal_strlit("debug");
    reveal_strlit("trace");
    assert("error"@.len() == 5 && "warn"@.len() == 4 && "info"@.len() == 4);
    assert("debug"@.len() == 5 && "trace"@.len() == 5);
    assert("error"@[0] == 'e' && "debug"@[0] == 'd' && "trace"@[0] == 't');
    assert("warn"@[0] == 'w' && "info"@[0] == 'i');
}

/// The level of a sink: its own, or the default one.
pub fn sink_level(own: &Option<String>, default_level: &str) -> (r: String)
    ensures
        r@ == (match *own {
            Some(l) => l@,
            None => default_level@,
        }),
{
    match own {
        Some(l) => l.clone(),
        None => default_level.to_owned(),
    }
}

/// When a log file rotates, in bytes, and how many rotated files are kept: both
/// at least one unit.
pub fn rotation(max_size_mb: u64, max_files: usize) -> (r: (usize, usize))
    requires
        max_size_mb * 1_048_576 <= usize::MAX,
    ensures
        r.0 == (if max_size_mb == 0 {
            1_048_576
        } else {
            max_size_mb * 1_048_576
        }),
        r.1 == (if max_files == 0 {
            1
        } else {
            max_files as int
        }),
{
    let mb: u64 = if max_size_mb == 0 {
        1
    } else {
        max_size_mb
    };
    let files: usize = if max_files == 0 {
        1
    } else {
        max_files
    };
    ((mb * 1_048_576) as usize, files)
}

/// The levels in order: error, warn, info, debug, trace; the rank of a name is its place
/// in that order, and an unknown name has the place of error.
pub proof fn law_levels_are_ordered(s: Seq<char>)
    ensures
        level_name(0) == "error"@ && level_name(1) == "warn"@ && level_name(2) == "info"@
            && level_name(3) == "debug"@ && level_name(4) == "trace"@,
        rank_of(s) == 1 <==> s == "warn"@,
        rank_of(s) == 2 <==> s == "info"@,
        rank_of(s) == 3 <==> s == "debug"@,
        rank_of(s) == 4 <==> s == "trace"@,
        rank_of(s) == 0 <==> s != "warn"@ && s != "info"@ && s != "debug"@ && s != "trace"@,
{
    reveal_strlit("warn");
    reveal_strlit("info");
    reveal_strlit("debug");
    reveal_strlit("trace");
    assert("warn"@[0] == 'w' && "info"@[0] == 'i' && "debug"@[0] == 'd' && "trace"@[0] == 't');
}

/// The directive of a sink: without `-v` the level of the config and warnings of others;
/// with one the level, debug at least; with more trace, information of others and the
/// Bluetooth stack's debugging.
pub proof fn law_directives(level: Seq<char>, lowered: Seq<char>, verbosity: u8)
    ensures
        directive(level, lowered, 0) == "warn,neewer_bridge="@ + lowered,
        lower(level) == "trace"@ ==> directive(level, lowered, 1) == "warn,neewer_bridge="@
            + "trace"@,
        lower(level) != "trace"@ ==> directive(level, lowered, 1) == "warn,neewer_bridge="@
            + "debug"@,
        verbosity >= 2 ==> directive(level, lowered, verbosity) == "info,neewer_bridge="@ + "trace"@
            + ",btleplug=debug"@,
{
    law_levels_are_ordered(lower(level));
}

} // verus!
