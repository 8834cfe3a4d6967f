//! Desktop integration: the launcher, autostart entry, icon and metadata
//! files, where they go, and how the executable path is written into them.

use vstd::prelude::*;
use crate::config::APP_ID;
use crate::text::{chars_of, string_from_chars, push_str};

verus! {

pub const DESKTOP_FILE: &'static str = "[Desktop Entry]\nType=Application\nName=Autolon\nGenericName=Input Automation Utility\nComment=Local autoclicker and input automation controller\nExec=autolon gui\nIcon=io.github.autolon.Autolon\nTerminal=false\nCategories=Utility;\nStartupNotify=false\nStartupWMClass=io.github.autolon.Autolon\n";

pub const AUTOSTART_FILE: &'static str = "[Desktop Entry]\nType=Application\nName=Autolon\nGenericName=Input Automation Utility\nComment=Start Autolon daemon at login\nExec=autolon daemon\nIcon=io.github.autolon.Autolon\nTerminal=false\nCategories=Utility;Game;\nStartupNotify=false\nStartupWMClass=io.github.autolon.Autolon\nX-GNOME-Autostart-enabled=true\n";

pub const ICON: &'static str = "<?xml version=\"1.0\" encoding=\"utf-8\"?>\n<!-- Based on SVG Repo \"Mouse Pointer Click\" icon, CC0 License:\n     https://www.svgrepo.com/svg/389320/mouse-pointer-click -->\n<svg xmlns=\"http://www.w3.org/2000/svg\" viewBox=\"0 0 128 128\">\n  <rect width=\"128\" height=\"128\" rx=\"24\" fill=\"#111827\"/>\n  <g fill=\"none\" stroke-linecap=\"round\" stroke-linejoin=\"round\">\n    <path d=\"M47 42l28 67 10-30 30-10-68-27z\" fill=\"#f8fafc\" stroke=\"#020617\" stroke-width=\"8\"/>\n    <path d=\"M85 80l24 24\" stroke=\"#f8fafc\" stroke-width=\"10\"/>\n    <path d=\"M85 80l24 24\" stroke=\"#2563eb\" stroke-width=\"5\"/>\n    <path d=\"M32 15l6 22M21 47l-22-6M69 20L53 36M37 69L21 85\" stroke=\"#f59e0b\" stroke-width=\"9\"/>\n  </g>\n</svg>\n";

pub const METINFO: &'static str = "<?xml version=\"1.0\" encoding=\"UTF-8\"?>\n<component type=\"desktop-application\">\n  <id>io.github.autolon.Autolon</id>\n  <name>Autolon</name>\n  <summary>Local autoclicker and input automation controller</summary>\n  <description>\n    <p>Autolon provides a native Linux daemon, CLI, tray menu, and settings window for transparent local autoclicker control.</p>\n  </description>\n  <url type=\"homepage\">https://github.com/autolon/autolon</url>\n  <metadata_license>MIT</metadata_license>\n  <project_license>MIT</project_license>\n  <launchable type=\"desktop-id\">io.github.autolon.Autolon.desktop</launchable>\n</component>\n";

pub const SYSUSERS: &'static str = "g autolon-input - - -\n";

pub const KWIN_INDICATOR_ID: &'static str = "autolonindicator";

/// A file to write, with its permission bits.
#[derive(Debug, Clone)]
pub struct FileWrite {
    pub path: String,
    pub contents: String,
    pub mode: u32,
}

/// A change to one file: write it, or remove it if it exists.
#[derive(Debug, Clone)]
pub enum FileChange {
    Write(FileWrite),
    Remove { path: String },
}

/// Whether `c` may stand unquoted in a shell word.
pub open spec fn is_shell_safe(c: char) -> bool {
    let u = c as u32;
    ||| 0x30 <= u <= 0x39
    ||| 0x41 <= u <= 0x5A
    ||| 0x61 <= u <= 0x7A
    ||| c == '/' || c == '.' || c == '_' || c == '-'
}

/// `s` with each single quote written as `'\''`.
pub open spec fn escape_single_quotes(s: Seq<char>) -> Seq<char>
    decreases s.len(),
{
    if s.len() == 0 {
        Seq::empty()
    } else {
        escape_single_quotes(s.drop_last()) + (if s.last() == '\'' { seq!['\'', '\\', '\'', '\''] } else { seq![s.last()] })
    }
}

/// `v` as one shell word: as it is when every character is safe, otherwise in
/// single quotes with the quotes inside escaped.
pub open spec fn shell_quoted(v: Seq<char>) -> Seq<char> {
    if forall|i: int| 0 <= i < v.len() ==> is_shell_safe(#[trigger] v[i]) {
        v
    } else {
        seq!['\''] + escape_single_quotes(v) + seq!['\'']
    }
}

fn char_is_shell_safe(c: char) -> (r: bool)
    ensures
        r == is_shell_safe(c),
{
    let u = c as u32;
    (0x30 <= u && u <= 0x39) || (0x41 <= u && u <= 0x5A) || (0x61 <= u && u <= 0x7A)
        || c == '/' || c == '.' || c == '_' || c == '-'
}

/// Quotes `value` for use as one word of a shell command line.
pub fn shell_quote(value: &str) -> (r: String)
    ensures
        r@ == shell_quoted(value@),
{
    let v = chars_of(value);
    let mut all_safe = true;
    let mut i: usize = 0;
    while i < v.len()
        invariant
            0 <= i <= v.len(),
            v@ == value@,
            all_safe == forall|k: int| 0 <= k < i ==> is_shell_safe(#[trigger] v@[k]),
        decreases v.len() - i,
    {
        if !char_is_shell_safe(v[i]) {
            all_safe = false;
        }
        i = i + 1;
    }
    if all_safe {
        return string_from_chars(v.as_slice());
    }
    let mut out: Vec<char> = Vec::new();
    out.push('\'');
    let mut j: usize = 0;
    while j < v.len()
        invariant
            0 <= j <= v.len(),
            v@ == value@,
            out@ == seq!['\''] + escape_single_quotes(v@.take(j as int)),
        decreases v.len() - j,
    {
        let c = v[j];
        if c == '\'' {
            out.push('\'');
            out.push('\\');
            out.push('\'');
            out.push('\'');
        } else {
            out.push(c);
        }
        proof {
            assert(v@.take(j + 1).drop_last() =~= v@.take(j as int));
        }
        j = j + 1;
        assert(out@ =~= seq!['\''] + escape_single_quotes(v@.take(j as int)));
    }
    out.push('\'');
    assert(v@.take(v.len() as int) =~= v@);
    assert(out@ =~= shell_quoted(value@));
    string_from_chars(out.as_slice())
}

/// `s` with every occurrence of `from`, found left to right without overlap,
/// replaced by `to` (`str::replace` for a non-empty pattern).
pub open spec fn replaced(s: Seq<char>, from: Seq<char>, to: Seq<char>) -> Seq<char>
    decreases s.len(),
{
    if from.len() == 0 || s.len() < from.len() {
        s
    } else if s.take(from.len() as int) == from {
        to + replaced(s.skip(from.len() as int), from, to)
    } else {
        seq![s[0]] + replaced(s.skip(1), from, to)
    }
}

/// `s` with every occurrence of the non-empty `from` replaced by `to`.
pub fn replace_all(s: &str, from: &str, to: &str) -> (r: String)
    requires
        from@.len() > 0,
    ensures
        r@ == replaced(s@, from@, to@),
{
    let sv = chars_of(s);
    let fv = chars_of(from);
    let tv = chars_of(to);
    let n = sv.len();
    let m = fv.len();
    let mut out: Vec<char> = Vec::new();
    let mut i: usize = 0;
    assert(sv@.skip(0) =~= sv@);
    assert(out@ + replaced(sv@, fv@, tv@) =~= replaced(sv@, fv@, tv@));
    while i < n
        invariant
            0 <= i <= n,
            n == sv@.len(),
            m == fv@.len(),
            m > 0,
            sv@ == s@,
            fv@ == from@,
            tv@ == to@,
            out@ + replaced(sv@.skip(i as int), fv@, tv@) == replaced(sv@, fv@, tv@),
        decreases n - i,
    {
        let ghost rest = sv@.skip(i as int);
        // Does `from` start at i?
        let mut matched = m <= n - i;
        let mut k: usize = 0;
        while matched && k < m
            invariant
                0 <= k <= m,
                i <= n,
                n == sv@.len(),
                m == fv@.len(),
                matched ==> m <= n - i,
                matched ==> forall|t: int| 0 <= t < k ==> sv@[i + t] == fv@[t],
                !matched ==> (m > n - i || exists|t: int| 0 <= t < m && sv@[i + t] != fv@[t]),
            decreases (m - k) as int + (if matched { 1int } else { 0int }),
        {
            if sv[i + k] != fv[k] {
                matched = false;
            } else {
                k = k + 1;
            }
        }
        if matched {
            proof {
                assert(rest.take(m as int) =~= fv@);
                assert(rest.skip(m as int) =~= sv@.skip(i + m));
            }
            let mut q: usize = 0;
            let ghost before = out@;
            while q < tv.len()
                invariant
                    0 <= q <= tv.len(),
                    out@ == before + tv@.take(q as int),
                decreases tv.len() - q,
            {
                out.push(tv[q]);
                q = q + 1;
                assert(out@ =~= before + tv@.take(q as int));
            }
            assert(tv@.take(tv.len() as int) =~= tv@);
            assert(out@ + replaced(sv@.skip(i + m), fv@, tv@) =~= before + replaced(rest, fv@, tv@));
            i = i + m;
        } else {
            proof {
                if m <= n - i {
                    let t = choose|t: int| 0 <= t < m && sv@[i + t] != fv@[t];
                    assert(rest.take(m as int)[t] != fv@[t]);
                }
                assert(rest.skip(1) =~= sv@.skip(i + 1));
            }
            let ghost before = out@;
            out.push(sv[i]);
            assert(out@ + replaced(sv@.skip(i + 1), fv@, tv@) =~= before + replaced(rest, fv@, tv@));
            i = i + 1;
        }
    }
    assert(sv@.skip(n as int) =~= Seq::<char>::empty());
    assert(out@ =~= replaced(sv@, fv@, tv@));
    string_from_chars(out.as_slice())
}

/// A desktop-file template with its `Exec=` lines pointing at `exe`.
pub open spec fn with_exec(template: Seq<char>, exe: Seq<char>) -> Seq<char> {
    replaced(
        replaced(template, "Exec=autolon gui"@, "Exec="@ + exe + " gui"@),
        "Exec=autolon daemon"@, "Exec="@ + exe + " daemon"@)
}

fn concat3(a: &str, b: &str, c: &str) -> (r: String)
    ensures
        r@ == a@ + b@ + c@,
{
    let mut r = String::from_str(a);
    r.append(b);
    r.append(c);
    r
}

/// Points the `Exec=` lines of a desktop-file template at the given
/// (already quoted) executable.
pub fn with_current_exec(template: &str, exe_command: &str) -> (r: String)
    ensures
        r@ == with_exec(template@, exe_command@),
{
    proof {
        reveal_strlit("Exec=autolon gui");
        reveal_strlit("Exec=autolon daemon");
    }
    let gui = concat3("Exec=", exe_command, " gui");
    let step = replace_all(template, "Exec=autolon gui", gui.as_str());
    let daemon = concat3("Exec=", exe_command, " daemon");
    replace_all(step.as_str(), "Exec=autolon daemon", daemon.as_str())
}

/// `base` joined with the relative path `rel`, as `Path::join` does: a
/// separator is added unless `base` is empty or already ends with one.
pub open spec fn joined(base: Seq<char>, rel: Seq<char>) -> Seq<char> {
    if base.len() == 0 || base.last() == '/' {
        base + rel
    } else {
        base + seq!['/'] + rel
    }
}

/// Joins the relative path `rel` to `base`.
pub fn join_path(base: &str, rel: &str) -> (r: String)
    ensures
        r@ == joined(base@, rel@),
{
    let b = chars_of(base);
    let mut out = b.clone();
    if b.len() > 0 && b[b.len() - 1] != '/' {
        out.push('/');
    }
    push_str(&mut out, rel);
    assert(out@ =~= joined(base@, rel@));
    string_from_chars(out.as_slice())
}

/// `APP_ID` followed by a file extension.
pub open spec fn app_file(ext: Seq<char>) -> Seq<char> {
    APP_ID@ + ext
}

fn app_file_name(ext: &str) -> (r: String)
    ensures
        r@ == app_file(ext@),
{
    let mut r = String::from_str(APP_ID);
    r.append(ext);
    r
}

fn file_at(dir: &str, sub: &str, name: &str, contents: &str, mode: u32) -> (f: FileWrite)
    ensures
        f.path@ == joined(joined(dir@, sub@), name@),
        f.contents@ == contents@,
        f.mode == mode,
{
    let d = join_path(dir, sub);
    FileWrite { path: join_path(d.as_str(), name), contents: String::from_str(contents), mode }
}

/// A file entry with the given path, contents and mode.
pub open spec fn is_file(f: FileWrite, path: Seq<char>, contents: Seq<char>, mode: u32) -> bool {
    f.path@ == path && f.contents@ == contents && f.mode == mode
}

/// The files that `install-desktop-files --prefix` writes, in order: the
/// launcher, the scalable icon, the metadata, and the sysusers entry for the
/// input group.
pub fn install_system_files(prefix: String) -> (files: Vec<FileWrite>)
    ensures
        files@.len() == 4,
        is_file(files@[0], joined(joined(prefix@, "share/applications"@), app_file(".desktop"@)), DESKTOP_FILE@, 0o644),
        is_file(files@[1], joined(joined(prefix@, "share/icons/hicolor/scalable/apps"@), app_file(".svg"@)), ICON@, 0o644),
        is_file(files@[2], joined(joined(prefix@, "share/metainfo"@), app_file(".metainfo.xml"@)), METINFO@, 0o644),
        is_file(files@[3], joined(joined(prefix@, "lib/sysusers.d"@), "autolon.conf"@), SYSUSERS@, 0o644),
{
    let p = prefix.as_str();
    let mut files: Vec<FileWrite> = Vec::new();
    files.push(file_at(p, "share/applications", app_file_name(".desktop").as_str(), DESKTOP_FILE, 0o644));
    files.push(file_at(p, "share/icons/hicolor/scalable/apps", app_file_name(".svg").as_str(), ICON, 0o644));
    files.push(file_at(p, "share/metainfo", app_file_name(".metainfo.xml").as_str(), METINFO, 0o644));
    files.push(file_at(p, "lib/sysusers.d", "autolon.conf", SYSUSERS, 0o644));
    files
}

/// What `desktop-icon install` (when `enable`) or `desktop-icon remove` does
/// to the launcher on the desktop: write it, executable, with `Exec=` pointing
/// at `exe_command`, or remove it. `exe_command` is only used when enabling.
pub fn set_desktop_icon(enable: bool, desktop_dir: &str, exe_command: &str) -> (c: FileChange)
    ensures
        enable ==> (c matches FileChange::Write(f) && is_file(f, joined(desktop_dir@, app_file(".desktop"@)),
            with_exec(DESKTOP_FILE@, exe_command@), 0o755)),
        !enable ==> (c matches FileChange::Remove { path } && path@ == joined(desktop_dir@, app_file(".desktop"@))),
{
    let path = join_path(desktop_dir, app_file_name(".desktop").as_str());
    if enable {
        FileChange::Write(FileWrite { path, contents: with_current_exec(DESKTOP_FILE, exe_command), mode: 0o755 })
    } else {
        FileChange::Remove { path }
    }
}

/// What `autostart enable` (when `enable`) or `autostart disable` does to
/// the autostart entry under the configuration directory: write it with
/// `Exec=` pointing at `exe_command`, or remove it. `exe_command` is only
/// used when enabling.
pub fn set_autostart(enable: bool, config_dir: &str, exe_command: &str) -> (c: FileChange)
    ensures
        enable ==> (c matches FileChange::Write(f) && is_file(f, joined(joined(config_dir@, "autostart"@), app_file(".desktop"@)),
            with_exec(AUTOSTART_FILE@, exe_command@), 0o644)),
        !enable ==> (c matches FileChange::Remove { path } && path@ == joined(joined(config_dir@, "autostart"@), app_file(".desktop"@))),
{
    let dir = join_path(config_dir, "autostart");
    let path = join_path(dir.as_str(), app_file_name(".desktop").as_str());
    if enable {
        FileChange::Write(FileWrite { path, contents: with_current_exec(AUTOSTART_FILE, exe_command), mode: 0o644 })
    } else {
        FileChange::Remove { path }
    }
}

/// The launcher and scalable icon that `launcher enable` writes under the
/// data directory, in order.
pub fn user_files(data_dir: &str, exe_command: &str) -> (files: Vec<FileWrite>)
    ensures
        files@.len() == 2,
        is_file(files@[0], joined(joined(data_dir@, "applications"@), app_file(".desktop"@)),
            with_exec(DESKTOP_FILE@, exe_command@), 0o644),
        is_file(files@[1], joined(joined(data_dir@, "icons/hicolor/scalable/apps"@), app_file(".svg"@)), ICON@, 0o644),
{
    let mut files: Vec<FileWrite> = Vec::new();
    let apps = join_path(data_dir, "applications");
    files.push(FileWrite {
        path: join_path(apps.as_str(), app_file_name(".desktop").as_str()),
        contents: with_current_exec(DESKTOP_FILE, exe_command),
        mode: 0o644,
    });
    files.push(file_at(data_dir, "icons/hicolor/scalable/apps", app_file_name(".svg").as_str(), ICON, 0o644));
    files
}

} // verus!
