use neewer_bridge::startup::{
    announce, config_hint, resolve_config_path, strip_verbatim, Announcement, ConfigPlace,
};

#[test]
fn verbatim_prefix_is_stripped_for_display() {
    let s = |p: &str| strip_verbatim(p);
    assert_eq!(s(r"\\?\C:\Users\me\config.toml"), r"C:\Users\me\config.toml");
    assert_eq!(s(r"\\?\D:\"), r"D:\");
    // A UNC path keeps its `\\server\share` form.
    assert_eq!(s(r"\\?\UNC\server\share\config.toml"), r"\\server\share\config.toml");
    // Device namespaces are not valid without the prefix; leave them alone.
    assert_eq!(s(r"\\?\Volume{9f8a}\config.toml"), r"\\?\Volume{9f8a}\config.toml");
    // Everything already plain is returned untouched, on any platform.
    assert_eq!(s("/root/neewer-bridge/config.toml"), "/root/neewer-bridge/config.toml");
    assert_eq!(s(r"C:\already\plain.toml"), r"C:\already\plain.toml");
}

#[test]
fn the_config_beside_the_program_wins_over_the_working_directory() {
    assert_eq!(resolve_config_path(true, true), ConfigPlace::Explicit);
    assert_eq!(resolve_config_path(false, true), ConfigPlace::BesideTheProgram);
    assert_eq!(resolve_config_path(false, false), ConfigPlace::WorkingDirectory);
}

#[test]
fn a_broken_config_is_never_announced_as_loaded() {
    assert_eq!(announce(true, true, true), Announcement::Loaded);
    assert_eq!(announce(false, true, true), Announcement::Broken);
    assert_eq!(announce(false, true, false), Announcement::Broken);
    assert_eq!(announce(false, false, true), Announcement::Missing);
    assert_eq!(announce(false, false, false), Announcement::NotNeeded);
}

#[test]
fn the_hint_names_the_example_that_was_found() {
    assert_eq!(
        config_hint("/a/config.toml", Some(("/a/config.example.toml", true))),
        "copy config.example.toml to /a/config.toml and edit it, or run `neewer-bridge add` to \
         create one"
    );
    assert_eq!(
        config_hint("c.toml", Some(("/b/config.example.toml", false))),
        "copy /b/config.example.toml to c.toml and edit it, or run `neewer-bridge add` to create one"
    );
    assert_eq!(
        config_hint("c.toml", None),
        "create c.toml (see config.example.toml in the release zip), or run `neewer-bridge add` to \
         create one"
    );
}
