use autolon::desktop::{
    install_system_files, join_path, replace_all, set_autostart, set_desktop_icon, shell_quote,
    user_files, with_current_exec, FileChange, AUTOSTART_FILE, DESKTOP_FILE, ICON, METINFO,
    SYSUSERS,
};

#[test]
fn shell_quote_leaves_safe_paths() {
    assert_eq!(shell_quote("/usr/bin/autolon"), "/usr/bin/autolon");
    assert_eq!(shell_quote("a-b_c.d/E9"), "a-b_c.d/E9");
}

#[test]
fn shell_quote_quotes_unsafe_paths() {
    assert_eq!(shell_quote("/opt/my apps/autolon"), "'/opt/my apps/autolon'");
    assert_eq!(shell_quote("it's"), "'it'\\''s'");
    assert_eq!(shell_quote(""), "");
}

#[test]
fn replace_all_replaces_every_occurrence() {
    assert_eq!(replace_all("aXbXc", "X", "--"), "a--b--c");
    assert_eq!(replace_all("aaaa", "aa", "b"), "bb");
    assert_eq!(replace_all("none here", "zz", "y"), "none here");
}

#[test]
fn exec_lines_point_at_the_executable() {
    let t = "Exec=autolon gui\nExec=autolon daemon\n";
    assert_eq!(
        with_current_exec(t, "'/opt/a b/autolon'"),
        "Exec='/opt/a b/autolon' gui\nExec='/opt/a b/autolon' daemon\n"
    );
    let desktop = with_current_exec(DESKTOP_FILE, "/bin/al");
    assert!(desktop.contains("Exec=/bin/al gui\n"));
    assert!(!desktop.contains("Exec=autolon"));
    let autostart = with_current_exec(AUTOSTART_FILE, "/bin/al");
    assert!(autostart.contains("Exec=/bin/al daemon\n"));
}

#[test]
fn join_path_adds_one_separator() {
    assert_eq!(join_path("/usr", "share"), "/usr/share");
    assert_eq!(join_path("/usr/", "share"), "/usr/share");
    assert_eq!(join_path("", "share"), "share");
}

#[test]
fn system_files_go_under_the_prefix() {
    let files = install_system_files("/usr".to_string());
    assert_eq!(files.len(), 4);
    assert_eq!(files[0].path, "/usr/share/applications/io.github.autolon.Autolon.desktop");
    assert_eq!(files[0].contents, DESKTOP_FILE);
    assert_eq!(files[1].path, "/usr/share/icons/hicolor/scalable/apps/io.github.autolon.Autolon.svg");
    assert_eq!(files[1].contents, ICON);
    assert_eq!(files[2].path, "/usr/share/metainfo/io.github.autolon.Autolon.metainfo.xml");
    assert_eq!(files[2].contents, METINFO);
    assert_eq!(files[3].path, "/usr/lib/sysusers.d/autolon.conf");
    assert_eq!(files[3].contents, SYSUSERS);
    assert!(files.iter().all(|f| f.mode == 0o644));
}

#[test]
fn desktop_icon_is_written_executable_or_removed() {
    match set_desktop_icon(true, "/home/u/Desktop", "/bin/al") {
        FileChange::Write(f) => {
            assert_eq!(f.path, "/home/u/Desktop/io.github.autolon.Autolon.desktop");
            assert_eq!(f.mode, 0o755);
            assert!(f.contents.contains("Exec=/bin/al gui"));
        }
        FileChange::Remove { .. } => panic!("expected a write"),
    }
    match set_desktop_icon(false, "/home/u/Desktop", "/bin/al") {
        FileChange::Remove { path } => assert_eq!(path, "/home/u/Desktop/io.github.autolon.Autolon.desktop"),
        FileChange::Write(_) => panic!("expected a removal"),
    }
}

#[test]
fn autostart_entry_is_written_or_removed() {
    match set_autostart(true, "/home/u/.config", "/bin/al") {
        FileChange::Write(f) => {
            assert_eq!(f.path, "/home/u/.config/autostart/io.github.autolon.Autolon.desktop");
            assert_eq!(f.mode, 0o644);
            assert!(f.contents.contains("Exec=/bin/al daemon"));
        }
        FileChange::Remove { .. } => panic!("expected a write"),
    }
    assert!(matches!(set_autostart(false, "/c", "/bin/al"), FileChange::Remove { path } if path == "/c/autostart/io.github.autolon.Autolon.desktop"));
}

#[test]
fn user_files_are_the_launcher_and_icon() {
    let files = user_files("/home/u/.local/share", "/bin/al");
    assert_eq!(files.len(), 2);
    assert_eq!(files[0].path, "/home/u/.local/share/applications/io.github.autolon.Autolon.desktop");
    assert!(files[0].contents.contains("Exec=/bin/al gui"));
    assert_eq!(files[1].path, "/home/u/.local/share/icons/hicolor/scalable/apps/io.github.autolon.Autolon.svg");
    assert_eq!(files[1].contents, ICON);
}
