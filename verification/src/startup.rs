//! Which config file a run uses, and what it says about it.

use vstd::prelude::*;
use vstd::string::*;
use crate::config::EXAMPLE_FILE;
use crate::text::{chars_of, has_prefix, starts_with, string_of};

verus! {

broadcast use vstd::string::group_string_axioms;

/// Where the config file is.
#[derive(Debug, Clone, Copy, PartialEq, Eq, Structural)]
pub enum ConfigPlace {
    /// Where the command line says.
    Explicit,
    /// Next to the program.
    BesideTheProgram,
    /// In the working directory.
    WorkingDirectory,
}

/// Where the config file is: a path on the command line is taken as it is; else the
/// file next to the program, if there is one; else the working directory.
pub fn resolve_config_path(explicit: bool, beside_is_file: bool) -> (r: ConfigPlace)
    ensures
        r == if explicit {
            ConfigPlace::Explicit
        } else if beside_is_file {
            ConfigPlace::BesideTheProgram
        } else {
            ConfigPlace::WorkingDirectory
        },
{
    if explicit {
        ConfigPlace::Explicit
    } else if beside_is_file {
        ConfigPlace::BesideTheProgram
    } else {
        ConfigPlace::WorkingDirectory
    }
}

/// What a run says about its config file.
#[derive(Debug, Clone, Copy, PartialEq, Eq, Structural)]
pub enum Announcement {
    /// It was loaded.
    Loaded,
    /// It exists but does not load: what needs it will refuse to run.
    Broken,
    /// There is none: defaults, with a hint how to make one.
    Missing,
    /// There is none, and none is needed.
    NotNeeded,
}

/// What a run says about its config file. A file that failed to load is never
/// announced as loaded, and always mentioned.
pub fn announce(loaded: bool, present: bool, needed: bool) -> (r: Announcement)
    ensures
        r == if loaded {
            Announcement::Loaded
        } else if present {
            Announcement::Broken
        } else if needed {
            Announcement::Missing
        } else {
            Announcement::NotNeeded
        },
{
    if loaded {
        Announcement::Loaded
    } else if present {
        Announcement::Broken
    } else if needed {
        Announcement::Missing
    } else {
        Announcement::NotNeeded
    }
}

/// Whether a path begins with a drive, such as `C:`.
pub open spec fn has_drive(s: Seq<char>) -> bool {
    s.len() >= 2 && ('a' <= s[0] <= 'z' || 'A' <= s[0] <= 'Z') && s[1] == ':'
}

/// A Windows path without its extended-length prefix, where it has a plain form: a
/// drive path or a share. Every other path is itself.
pub open spec fn plain_path(s: Seq<char>) -> Seq<char> {
    if has_prefix(s, "\\\\?\\UNC\\"@) {
        "\\\\"@ + s.skip(8)
    } else if has_prefix(s, "\\\\?\\"@) && has_drive(s.skip(4)) {
        s.skip(4)
    } else {
        s
    }
}

/// A Windows path without its extended-length prefix, where it has a plain form.
pub fn strip_verbatim(path: &str) -> (r: String)
    ensures
        r@ == plain_path(path@),
{
    proof {
        reveal_strlit("\\\\?\\UNC\\");
        reveal_strlit("\\\\?\\");
    }
    let chars = chars_of(path);
    if starts_with(&chars, "\\\\?\\UNC\\") {
        let rest = vstd::slice::slice_subrange(&chars, 8, chars.len());
        assert(rest@ == path@.skip(8));
        let mut out = "\\\\".to_string();
        out.append(string_of(rest).as_str());
        return out;
    }
    if starts_with(&chars, "\\\\?\\") {
        let rest = vstd::slice::slice_subrange(&chars, 4, chars.len());
        assert(rest@ == path@.skip(4));
        if rest.len() >= 2 && (('a' <= rest[0] && rest[0] <= 'z') || ('A' <= rest[0] && rest[0]
            <= 'Z')) && rest[1] == ':' {
            return string_of(rest);
        }
    }
    path.to_owned()
}

/// A path without the prefix is shown as it is, and a drive path that has lost it stays
/// as it is.
pub proof fn law_plain_paths_are_untouched(s: Seq<char>)
    ensures
        !has_prefix(s, "\\\\?\\"@) ==> plain_path(s) == s,
        has_prefix(s, "\\\\?\\"@) && !has_prefix(s, "\\\\?\\UNC\\"@) ==> plain_path(plain_path(s))
            == plain_path(s),
{
    reveal_strlit("\\\\?\\UNC\\");
    reveal_strlit("\\\\?\\");
    let long = "\\\\?\\UNC\\"@;
    let short = "\\\\?\\"@;
    if has_prefix(s, long) {
        assert(s.take(4) =~= long.take(4));
        assert(long.take(4) =~= short);
    } else if has_prefix(s, short) && has_drive(s.skip(4)) {
        let t = s.skip(4);
        assert(t[0] != '\\');
        if has_prefix(t, short) {
            assert(t.take(4)[0] == '\\');
        }
        if has_prefix(t, long) {
            assert(t.take(8)[0] == '\\');
        }
    }
}

/// How to get a config file, given the path where it belongs and the example that was
/// found, if one was: by its name where it lies in the same directory.
pub open spec fn hint_text(config: Seq<char>, example: Option<(Seq<char>, bool)>) -> Seq<char> {
    match example {
        Some((path, same_directory)) => "copy "@ + (if same_directory {
            EXAMPLE_FILE@
        } else {
            path
        }) + " to "@ + config + " and edit it, or run `neewer-bridge add` to create one"@,
        None => "create "@ + config + " (see "@ + EXAMPLE_FILE@
            + " in the release zip), or run `neewer-bridge add` to create one"@,
    }
}

/// How to get a config file.
pub fn config_hint(config: &str, example: Option<(&str, bool)>) -> (r: String)
    ensures
        r@ == hint_text(
            config@,
            match example {
                Some((path, same_directory)) => Some((path@, same_directory)),
                None => None,
            },
        ),
{
    match example {
        Some((path, same_directory)) => {
            let mut out = "copy ".to_string();
            if same_directory {
                out.append(EXAMPLE_FILE);
            } else {
                out.append(path);
            }
            out.append(" to ");
            out.append(config);
            out.append(" and edit it, or run `neewer-bridge add` to create one");
            out
        },
        None => {
            let mut out = "create ".to_string();
            out.append(config);
            out.append(" (see ");
            out.append(EXAMPLE_FILE);
            out.append(" in the release zip), or run `neewer-bridge add` to create one");
            out
        },
    }
}

/// The extended-length prefix: a share behind it becomes a plain share, a drive behind it
/// stands alone, and anything else behind it stays as it is.
pub proof fn law_extended_paths(rest: Seq<char>, s: Seq<char>)
    ensures
        plain_path("\\\\?\\UNC\\"@ + rest) == "\\\\"@ + rest,
        rest.len() >= 2 && rest[1] == ':' && ('a' <= rest[0] <= 'z' || 'A' <= rest[0] <= 'Z')
            ==> plain_path("\\\\?\\"@ + rest) == rest,
        rest.len() < 2 || !('a' <= rest[0] <= 'z' || 'A' <= rest[0] <= 'Z') ==> (has_prefix(
            "\\\\?\\"@ + rest,
            "\\\\?\\UNC\\"@,
        ) || plain_path("\\\\?\\"@ + rest) == "\\\\?\\"@ + rest),
{
    reveal_strlit("\\\\?\\UNC\\");
    reveal_strlit("\\\\?\\");
    let unc = "\\\\?\\UNC\\"@;
    let ext = "\\\\?\\"@;
    assert((unc + rest).take(8) =~= unc);
    assert((unc + rest).skip(8) =~= rest);
    assert((ext + rest).take(4) =~= ext);
    assert((ext + rest).skip(4) =~= rest);
    if has_prefix(ext + rest, unc) {
        assert((ext + rest).take(8)[5] == unc[5]);
        assert((ext + rest)[5] == rest[1]);
        assert(unc[5] == 'N');
    }
}

/// The hint names the config file, and the example: by its name where the two lie side by
/// side, by its path otherwise.
pub proof fn law_hints_name_the_files(config: Seq<char>, path: Seq<char>, same_directory: bool)
    ensures
        hint_text(config, Some((path, true))) == "copy "@ + EXAMPLE_FILE@ + " to "@ + config
            + " and edit it, or run `neewer-bridge add` to create one"@,
        hint_text(config, Some((path, false))) == "copy "@ + path + " to "@ + config
            + " and edit it, or run `neewer-bridge add` to create one"@,
        hint_text(config, None) == "create "@ + config + " (see "@ + EXAMPLE_FILE@
            + " in the release zip), or run `neewer-bridge add` to create one"@,
{
}

} // verus!
