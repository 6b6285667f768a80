//! The per-user launchd service: file locations, the files it installs, and
//! how `launchctl print` output is read.
use vstd::prelude::*;

use crate::text::{
    chars_match_at, chars_of, decimal_chars, decimal_digits, has_prefix, parse_i32,
    parse_i32_chars, parse_unsigned, parse_unsigned_chars, push_char, push_chars, str_equal,
    string_from_chars, trim_chars, trimmed,
};

verus! {

broadcast use vstd::string::group_string_axioms;

/// The launchd label of the collector service.
pub const SERVICE_LABEL: &'static str = "com.simple-profiler.agent";

/// The first lines of every CLI launcher this program writes.
pub const CLI_LAUNCHER_PREFIX: &'static str = "#!/bin/sh\n# Managed by Simple Profiler. Do not edit.\n";

/// The CLI launcher written by earlier releases, also recognized as managed.
pub const LEGACY_CLI_LAUNCHER: &'static str = "#!/bin/sh\n\nexec \"$HOME/Library/Application Support/SimpleProfiler/bin/simple-profiler\" \\\n  --config \"$HOME/Library/Application Support/SimpleProfiler/config.toml\" \\\n  \"$@\"\n";

/// Why a service operation was refused.
#[derive(Debug, Clone, Copy, PartialEq, Eq, Structural)]
pub enum ServiceError {
    /// Service management is only available on macOS.
    UnsupportedPlatform,
    /// `HOME` is not set.
    HomeNotSet,
}

// ---------------------------------------------------------------------------
// Paths.
/// `Path::join` with a relative component: the component is appended after a
/// `/`, unless the base is empty or already ends with one.
pub open spec fn path_join(base: Seq<char>, part: Seq<char>) -> Seq<char> {
    if base.len() == 0 {
        part
    } else if base.last() == '/' {
        base + part
    } else {
        base + seq!['/'] + part
    }
}

/// Joins a relative component to a path (see `path_join`).
pub fn join(base: &str, part: &str) -> (joined: String)
    ensures
        joined@ == path_join(base@, part@),
{
    let mut joined = base.to_owned();
    let chars = chars_of(base);
    if chars.len() > 0 && chars[chars.len() - 1] != '/' {
        push_char(&mut joined, '/');
    }
    joined.append(part);
    assert(joined@ =~= path_join(base@, part@));
    joined
}

/// Where the service keeps its files.
#[derive(Debug, Clone, PartialEq, Eq)]
pub struct ServicePaths {
    pub application_dir: String,
    pub binary: String,
    pub config: String,
    pub database: String,
    pub logs: String,
    pub plist: String,
    pub cli_launcher: String,
}

/// `<home>/Library/Application Support/SimpleProfiler`.
pub open spec fn application_dir_in(home: Seq<char>) -> Seq<char> {
    path_join(path_join(path_join(home, "Library"@), "Application Support"@), "SimpleProfiler"@)
}

/// Whether `paths` are the service's file locations under `home`.
pub open spec fn located_under(paths: ServicePaths, home: Seq<char>) -> bool {
    let app = application_dir_in(home);
    &&& paths.application_dir@ == app
    &&& paths.binary@ == path_join(path_join(app, "bin"@), "simple-profiler"@)
    &&& paths.config@ == path_join(app, "config.toml"@)
    &&& paths.database@ == path_join(path_join(app, "data"@), "simple-profiler.sqlite3"@)
    &&& paths.logs@ == path_join(
        path_join(path_join(home, "Library"@), "Logs"@),
        "SimpleProfiler"@,
    )
    &&& paths.plist@ == path_join(
        path_join(path_join(home, "Library"@), "LaunchAgents"@),
        "com.simple-profiler.agent.plist"@,
    )
    &&& paths.cli_launcher@ == path_join(
        path_join(path_join(home, ".local"@), "bin"@),
        "simple-profiler"@,
    )
}

impl ServicePaths {
    /// The locations of the service's files under `home`.
    pub fn for_home(home: &str) -> (paths: Self)
        ensures
            located_under(paths, home@),
    {
        let library = join(home, "Library");
        let support = join(&library, "Application Support");
        let application_dir = join(&support, "SimpleProfiler");
        let logs_parent = join(&library, "Logs");
        let logs = join(&logs_parent, "SimpleProfiler");
        let bin = join(&application_dir, "bin");
        let binary = join(&bin, "simple-profiler");
        let config = join(&application_dir, "config.toml");
        let data = join(&application_dir, "data");
        let database = join(&data, "simple-profiler.sqlite3");
        let agents = join(&library, "LaunchAgents");
        let plist = join(&agents, "com.simple-profiler.agent.plist");
        let local = join(home, ".local");
        let local_bin = join(&local, "bin");
        let cli_launcher = join(&local_bin, "simple-profiler");
        ServicePaths { application_dir, binary, config, database, logs, plist, cli_launcher }
    }

    /// The locations under the home directory that `HOME` names (`home`);
    /// refused when `HOME` is not set.
    pub fn from_environment(home: Option<&str>) -> (r: Result<Self, ServiceError>)
        ensures
            home is None ==> r == Err::<Self, ServiceError>(ServiceError::HomeNotSet),
            home matches Some(h) ==> (r matches Ok(paths) && located_under(paths, h@)),
    {
        match home {
            Some(h) => Ok(Self::for_home(h)),
            None => Err(ServiceError::HomeNotSet),
        }
    }

    /// The service's standard output log.
    pub fn stdout_log(&self) -> (path: String)
        ensures
            path@ == path_join(self.logs@, "service.stdout.log"@),
    {
        join(&self.logs, "service.stdout.log")
    }

    /// The service's standard error log.
    pub fn stderr_log(&self) -> (path: String)
        ensures
            path@ == path_join(self.logs@, "service.stderr.log"@),
    {
        join(&self.logs, "service.stderr.log")
    }
}

// ---------------------------------------------------------------------------
// Status.
/// What `launchctl` reports of the service.
#[derive(Debug, Clone, PartialEq, Eq)]
pub struct ServiceStatus {
    pub installed: bool,
    pub loaded: bool,
    pub state: Option<String>,
    pub pid: Option<u32>,
    pub last_exit_code: Option<i32>,
}

/// Whether a status says the service runs: its state is `running` or it has a
/// process.
pub open spec fn is_running(state: Option<Seq<char>>, pid: Option<u32>) -> bool {
    state == Some("running"@) || pid is Some
}

/// The view of an optional string.
pub open spec fn optional_view(value: Option<String>) -> Option<Seq<char>> {
    match value {
        Some(s) => Some(s@),
        None => None,
    }
}

impl ServiceStatus {
    /// Whether the service runs (see `is_running`).
    pub fn running(&self) -> (r: bool)
        ensures
            r == is_running(optional_view(self.state), self.pid),
    {
        let state_running = match &self.state {
            Some(state) => str_equal(state.as_str(), "running"),
            None => false,
        };
        state_running || self.pid.is_some()
    }
}

/// The fields a `launchctl print` report sets, as read so far.
pub struct StatusFields {
    pub state: Option<Seq<char>>,
    pub pid: Option<u32>,
    pub last_exit_code: Option<i32>,
}

/// One line of a `launchctl print` report, trimmed, applied to the fields:
/// `state = `, `pid = ` and `last exit code = ` lines set the field they
/// name (a number that does not parse clears it); other lines change nothing.
pub open spec fn apply_status_line(fields: StatusFields, line: Seq<char>) -> StatusFields {
    let t = trimmed(line);
    if has_prefix(t, "state = "@) {
        StatusFields { state: Some(t.skip(8)), ..fields }
    } else if has_prefix(t, "pid = "@) {
        StatusFields {
            pid: match parse_unsigned(t.skip(6), u32::MAX as nat) {
                Some(v) => Some(v as u32),
                None => None,
            },
            ..fields
        }
    } else if has_prefix(t, "last exit code = "@) {
        StatusFields {
            last_exit_code: match parse_i32(t.skip(17)) {
                Some(v) => Some(v as i32),
                None => None,
            },
            ..fields
        }
    } else {
        fields
    }
}

/// The fields a report sets, reading `rest` line by line; `line` holds the
/// characters of the current line read so far.
pub open spec fn scan_status(fields: StatusFields, line: Seq<char>, rest: Seq<char>) -> StatusFields
    decreases rest.len(),
{
    if rest.len() == 0 {
        apply_status_line(fields, line)
    } else if rest[0] == '\n' {
        scan_status(apply_status_line(fields, line), Seq::empty(), rest.skip(1))
    } else {
        scan_status(fields, line.push(rest[0]), rest.skip(1))
    }
}

/// The fields a whole `launchctl print` report sets.
pub open spec fn reported_fields(text: Seq<char>) -> StatusFields {
    scan_status(StatusFields { state: None, pid: None, last_exit_code: None }, Seq::empty(), text)
}

fn prefix_chars(prefix: &str) -> (v: Vec<char>)
    ensures
        v@ == prefix@,
{
    chars_of(prefix)
}

fn suffix_string(chars: &Vec<char>, start: usize) -> (s: String)
    requires
        start <= chars.len(),
    ensures
        s@ == chars@.skip(start as int),
{
    let mut rest: Vec<char> = Vec::new();
    let mut i = start;
    while i < chars.len()
        invariant
            start <= i <= chars.len(),
            rest@ == chars@.subrange(start as int, i as int),
        decreases chars.len() - i,
    {
        rest.push(chars[i]);
        i = i + 1;
        assert(rest@ =~= chars@.subrange(start as int, i as int));
    }
    assert(rest@ =~= chars@.skip(start as int));
    string_from_chars(&rest)
}

fn suffix_chars(chars: &Vec<char>, start: usize) -> (rest: Vec<char>)
    requires
        start <= chars.len(),
    ensures
        rest@ == chars@.skip(start as int),
{
    let mut rest: Vec<char> = Vec::new();
    let mut i = start;
    while i < chars.len()
        invariant
            start <= i <= chars.len(),
            rest@ == chars@.subrange(start as int, i as int),
        decreases chars.len() - i,
    {
        rest.push(chars[i]);
        i = i + 1;
        assert(rest@ =~= chars@.subrange(start as int, i as int));
    }
    assert(rest@ =~= chars@.skip(start as int));
    rest
}

fn apply_line(
    state: &mut Option<String>,
    pid: &mut Option<u32>,
    last_exit_code: &mut Option<i32>,
    line: &Vec<char>,
)
    ensures
        ({
            let after = apply_status_line(
                StatusFields {
                    state: optional_view(*old(state)),
                    pid: *old(pid),
                    last_exit_code: *old(last_exit_code),
                },
                line@,
            );
            &&& optional_view(*final(state)) == after.state
            &&& *final(pid) == after.pid
            &&& *final(last_exit_code) == after.last_exit_code
        }),
{
    let t = trim_chars(line);
    assert(t@.skip(0) =~= t@);
    if chars_match_at(&t, 0, &prefix_chars("state = ")) {
        proof {
            reveal_strlit("state = ");
        }
        *state = Some(suffix_string(&t, 8));
    } else if chars_match_at(&t, 0, &prefix_chars("pid = ")) {
        proof {
            reveal_strlit("pid = ");
        }
        *pid = match parse_unsigned_chars(&suffix_chars(&t, 6), 0xffff_ffff) {
            Some(v) => Some(v as u32),
            None => None,
        };
    } else if chars_match_at(&t, 0, &prefix_chars("last exit code = ")) {
        proof {
            reveal_strlit("last exit code = ");
        }
        *last_exit_code = parse_i32_chars(&suffix_chars(&t, 17));
    }
}

/// Reads a `launchctl print` report of a loaded service (see
/// `reported_fields`).
pub fn parse_launchctl_status(text: &str, installed: bool) -> (status: ServiceStatus)
    ensures
        status.installed == installed,
        status.loaded,
        optional_view(status.state) == reported_fields(text@).state,
        status.pid == reported_fields(text@).pid,
        status.last_exit_code == reported_fields(text@).last_exit_code,
{
    let chars = chars_of(text);
    let mut state: Option<String> = None;
    let mut pid: Option<u32> = None;
    let mut last_exit_code: Option<i32> = None;
    let mut line: Vec<char> = Vec::new();
    let mut i: usize = 0;
    assert(chars@.skip(0) =~= chars@);
    assert(line@ =~= Seq::<char>::empty());
    while i < chars.len()
        invariant
            i <= chars.len(),
            chars@ == text@,
            scan_status(
                StatusFields { state: optional_view(state), pid, last_exit_code },
                line@,
                chars@.skip(i as int),
            ) == reported_fields(text@),
        decreases chars.len() - i,
    {
        let c = chars[i];
        proof {
            assert(chars@.skip(i as int).skip(1) =~= chars@.skip(i + 1));
            assert(chars@.skip(i as int)[0] == c);
        }
        if c == '\n' {
            apply_line(&mut state, &mut pid, &mut last_exit_code, &line);
            line = Vec::new();
        } else {
            line.push(c);
        }
        i = i + 1;
    }
    proof {
        assert(chars@.skip(i as int).len() == 0);
    }
    apply_line(&mut state, &mut pid, &mut last_exit_code, &line);
    ServiceStatus { installed, loaded: true, state, pid, last_exit_code }
}

// ---------------------------------------------------------------------------
// The manager.
/// Manages the service of the current user.
pub struct ServiceManager {
    paths: ServicePaths,
}

/// Service management runs on macOS only (`on_macos`).
pub fn require_macos(on_macos: bool) -> (r: Result<(), ServiceError>)
    ensures
        on_macos ==> r is Ok,
        !on_macos ==> r == Err::<(), ServiceError>(ServiceError::UnsupportedPlatform),
{
    if on_macos {
        Ok(())
    } else {
        Err(ServiceError::UnsupportedPlatform)
    }
}

impl ServiceManager {
    /// The paths this manager works on.
    pub closed spec fn spec_paths(&self) -> ServicePaths {
        self.paths
    }

    /// A manager for the service under `HOME` (`home`), on macOS (`on_macos`)
    /// only.
    pub fn from_environment(home: Option<&str>, on_macos: bool) -> (r: Result<Self, ServiceError>)
        ensures
            !on_macos ==> r == Err::<Self, ServiceError>(ServiceError::UnsupportedPlatform),
            on_macos && home is None ==> r == Err::<Self, ServiceError>(ServiceError::HomeNotSet),
            on_macos && home is Some ==> (r matches Ok(manager) && located_under(
                manager.spec_paths(),
                home->0@,
            )),
    {
        require_macos(on_macos)?;
        let paths = ServicePaths::from_environment(home)?;
        Ok(ServiceManager { paths })
    }

    /// The paths this manager works on.
    pub fn paths(&self) -> (paths: &ServicePaths)
        ensures
            *paths == self.spec_paths(),
    {
        &self.paths
    }

    /// The launchd domain of the user with id `uid`: `gui/<uid>`.
    pub fn domain(&self, uid: u32) -> (domain: String)
        ensures
            domain@ == "gui/"@ + decimal_digits(uid as nat),
    {
        let mut domain = String::from_str("gui/");
        push_chars(&mut domain, &decimal_chars(uid as u64));
        domain
    }

    /// The launchd service target of the user with id `uid`:
    /// `gui/<uid>/com.simple-profiler.agent`.
    pub fn target(&self, uid: u32) -> (target: String)
        ensures
            target@ == "gui/"@ + decimal_digits(uid as nat) + "/"@ + SERVICE_LABEL@,
    {
        let mut target = self.domain(uid);
        target.append("/");
        target.append(SERVICE_LABEL);
        target
    }
}

// ---------------------------------------------------------------------------
// Installed files.
/// How a path appears in a POSIX shell script: single-quoted, each `'`
/// written as `'"'"'`.
pub open spec fn shell_quoted(s: Seq<char>) -> Seq<char> {
    seq!['\''] + shell_escaped(s) + seq!['\'']
}

/// The inside of `shell_quoted`.
pub open spec fn shell_escaped(s: Seq<char>) -> Seq<char>
    decreases s.len(),
{
    if s.len() == 0 {
        Seq::empty()
    } else {
        shell_escaped(s.drop_last()) + if s.last() == '\'' {
            seq!['\'', '"', '\'', '"', '\'']
        } else {
            seq![s.last()]
        }
    }
}

/// Appends `path` quoted for a POSIX shell (see `shell_quoted`).
pub fn shell_quote(out: &mut String, path: &str)
    ensures
        final(out)@ == old(out)@ + shell_quoted(path@),
{
    let chars = chars_of(path);
    push_char(out, '\'');
    let mut i: usize = 0;
    while i < chars.len()
        invariant
            i <= chars.len(),
            chars@ == path@,
            out@ == old(out)@ + seq!['\''] + shell_escaped(chars@.take(i as int)),
        decreases chars.len() - i,
    {
        let c = chars[i];
        if c == '\'' {
            push_char(out, '\'');
            push_char(out, '"');
            push_char(out, '\'');
            push_char(out, '"');
            push_char(out, '\'');
        } else {
            push_char(out, c);
        }
        proof {
            let next = chars@.take(i + 1);
            assert(next.drop_last() =~= chars@.take(i as int));
            assert(out@ =~= old(out)@ + seq!['\''] + shell_escaped(next));
        }
        i = i + 1;
    }
    push_char(out, '\'');
    assert(chars@.take(chars.len() as int) =~= path@);
    assert(out@ =~= old(out)@ + shell_quoted(path@));
}

/// The CLI launcher: the managed prefix, then a line that runs the installed
/// binary with the installed configuration and passes every argument on.
pub open spec fn cli_launcher_text(binary: Seq<char>, config: Seq<char>) -> Seq<char> {
    CLI_LAUNCHER_PREFIX@ + "\nexec "@ + shell_quoted(binary) + " --config "@ + shell_quoted(config)
        + " \"$@\"\n"@
}

/// The CLI launcher for the installed files (see `cli_launcher_text`).
pub fn render_cli_launcher(paths: &ServicePaths) -> (text: String)
    ensures
        text@ == cli_launcher_text(paths.binary@, paths.config@),
{
    let mut text = String::from_str(CLI_LAUNCHER_PREFIX);
    text.append("\nexec ");
    shell_quote(&mut text, paths.binary.as_str());
    text.append(" --config ");
    shell_quote(&mut text, paths.config.as_str());
    text.append(" \"$@\"\n");
    assert(text@ =~= cli_launcher_text(paths.binary@, paths.config@));
    text
}

/// Whether a file is a CLI launcher this program wrote: it starts with the
/// managed prefix, or it is the launcher of earlier releases.
pub open spec fn is_managed_launcher(content: Seq<char>) -> bool {
    has_prefix(content, CLI_LAUNCHER_PREFIX@) || content == LEGACY_CLI_LAUNCHER@
}

/// Whether a file is a CLI launcher this program wrote (see `is_managed_launcher`).
pub fn is_managed_cli_launcher(content: &str) -> (managed: bool)
    ensures
        managed == is_managed_launcher(content@),
{
    let chars = chars_of(content);
    assert(chars@.skip(0) =~= chars@);
    chars_match_at(&chars, 0, &chars_of(CLI_LAUNCHER_PREFIX)) || str_equal(
        content,
        LEGACY_CLI_LAUNCHER,
    )
}

/// What is found at the CLI launcher's path.
pub enum LauncherFile {
    /// Nothing.
    Missing,
    /// A symbolic link to the given target.
    Symlink(String),
    /// A regular file with the given content.
    File(String),
    /// Something else, such as a directory.
    Other,
}

/// Whether what is found at the launcher's path belongs to this program: a
/// link to the installed binary, or a managed launcher file.
pub open spec fn launcher_is_ours(found: LauncherFile, binary: Seq<char>) -> bool {
    match found {
        LauncherFile::Symlink(target) => target@ == binary,
        LauncherFile::File(content) => is_managed_launcher(content@),
        _ => false,
    }
}

/// Whether an install may write the CLI launcher: nothing is there yet, or
/// what is there belongs to this program.
pub fn may_replace_cli_launcher(found: &LauncherFile, paths: &ServicePaths) -> (may: bool)
    ensures
        may == (found is Missing || launcher_is_ours(*found, paths.binary@)),
{
    match found {
        LauncherFile::Missing => true,
        LauncherFile::Symlink(target) => str_equal(target.as_str(), paths.binary.as_str()),
        LauncherFile::File(content) => is_managed_cli_launcher(content.as_str()),
        LauncherFile::Other => false,
    }
}

/// Whether an uninstall removes what is found at the CLI launcher's path:
/// only what belongs to this program.
pub fn should_remove_cli_launcher(found: &LauncherFile, paths: &ServicePaths) -> (remove: bool)
    ensures
        remove == launcher_is_ours(*found, paths.binary@),
{
    match found {
        LauncherFile::Missing => false,
        LauncherFile::Symlink(target) => str_equal(target.as_str(), paths.binary.as_str()),
        LauncherFile::File(content) => is_managed_cli_launcher(content.as_str()),
        LauncherFile::Other => false,
    }
}

/// One removal of an uninstall.
#[derive(Debug, Clone, PartialEq, Eq)]
pub enum Removal {
    /// Remove the CLI launcher at this path if it belongs to this program.
    ManagedCliLauncher(String),
    /// Remove this file if it exists.
    File(String),
    /// Remove this directory and its contents if it exists.
    Directory(String),
}

/// What an uninstall removes, in order: the managed CLI launcher, the launch
/// agent and the binary; with `purge` also the application directory
/// (configuration and data) and the logs.  Without `purge`, the
/// configuration, the database and the logs stay.
pub open spec fn uninstall_plan(paths: ServicePaths, purge: bool) -> Seq<Removal> {
    let kept = seq![
        Removal::ManagedCliLauncher(paths.cli_launcher),
        Removal::File(paths.plist),
        Removal::File(paths.binary),
    ];
    if purge {
        kept + seq![
            Removal::Directory(paths.application_dir),
            Removal::Directory(paths.logs),
        ]
    } else {
        kept
    }
}

/// The removals of an uninstall (see `uninstall_plan`).
pub fn uninstall_files(paths: &ServicePaths, purge: bool) -> (plan: Vec<Removal>)
    ensures
        plan@ == uninstall_plan(*paths, purge),
{
    let mut plan: Vec<Removal> = Vec::new();
    plan.push(Removal::ManagedCliLauncher(paths.cli_launcher.clone()));
    plan.push(Removal::File(paths.plist.clone()));
    plan.push(Removal::File(paths.binary.clone()));
    if purge {
        plan.push(Removal::Directory(paths.application_dir.clone()));
        plan.push(Removal::Directory(paths.logs.clone()));
    }
    assert(plan@ =~= uninstall_plan(*paths, purge));
    plan
}

// ---------------------------------------------------------------------------
// The launch agent.
/// How a character appears in XML text.
pub open spec fn xml_escaped_char(c: char) -> Seq<char> {
    if c == '&' {
        seq!['&', 'a', 'm', 'p', ';']
    } else if c == '<' {
        seq!['&', 'l', 't', ';']
    } else if c == '>' {
        seq!['&', 'g', 't', ';']
    } else if c == '"' {
        seq!['&', 'q', 'u', 'o', 't', ';']
    } else if c == '\'' {
        seq!['&', 'a', 'p', 'o', 's', ';']
    } else {
        seq![c]
    }
}

/// Text made safe for XML: each character replaced by `xml_escaped_char`.
pub open spec fn xml_escaped(s: Seq<char>) -> Seq<char>
    decreases s.len(),
{
    if s.len() == 0 {
        Seq::empty()
    } else {
        xml_escaped(s.drop_last()) + xml_escaped_char(s.last())
    }
}

fn push_xml_escaped_char(out: &mut String, c: char)
    ensures
        final(out)@ == old(out)@ + xml_escaped_char(c),
{
    let ghost before = out@;
    if c == '&' {
        push_char(out, '&');
        push_char(out, 'a');
        push_char(out, 'm');
        push_char(out, 'p');
        push_char(out, ';');
    } else if c == '<' {
        push_char(out, '&');
        push_char(out, 'l');
        push_char(out, 't');
        push_char(out, ';');
    } else if c == '>' {
        push_char(out, '&');
        push_char(out, 'g');
        push_char(out, 't');
        push_char(out, ';');
    } else if c == '"' {
        push_char(out, '&');
        push_char(out, 'q');
        push_char(out, 'u');
        push_char(out, 'o');
        push_char(out, 't');
        push_char(out, ';');
    } else if c == '\'' {
        push_char(out, '&');
        push_char(out, 'a');
        push_char(out, 'p');
        push_char(out, 'o');
        push_char(out, 's');
        push_char(out, ';');
    } else {
        push_char(out, c);
    }
    assert(out@ =~= before + xml_escaped_char(c));
}

/// Appends `value` escaped for XML (see `xml_escaped`).
pub fn xml_escape(out: &mut String, value: &str)
    ensures
        final(out)@ == old(out)@ + xml_escaped(value@),
{
    let chars = chars_of(value);
    let mut i: usize = 0;
    while i < chars.len()
        invariant
            i <= chars.len(),
            chars@ == value@,
            out@ == old(out)@ + xml_escaped(chars@.take(i as int)),
        decreases chars.len() - i,
    {
        push_xml_escaped_char(out, chars[i]);
        proof {
            let next = chars@.take(i + 1);
            assert(next.drop_last() =~= chars@.take(i as int));
            assert(out@ =~= old(out)@ + xml_escaped(next));
        }
        i = i + 1;
    }
    assert(chars@.take(chars.len() as int) =~= value@);
}

/// The launch agent up to the service label.
pub const PLIST_HEAD: &'static str = "<?xml version=\"1.0\" encoding=\"UTF-8\"?>\n<!DOCTYPE plist PUBLIC \"-//Apple//DTD PLIST 1.0//EN\" \"http://www.apple.com/DTDs/PropertyList-1.0.dtd\">\n<plist version=\"1.0\">\n<dict>\n    <key>Label</key>\n    <string>";

/// The launch agent from the label up to the binary.
pub const PLIST_BEFORE_BINARY: &'static str = "</string>\n    <key>ProgramArguments</key>\n    <array>\n        <string>";

/// The launch agent from the binary up to the configuration.
pub const PLIST_BEFORE_CONFIG: &'static str = "</string>\n        <string>--config</string>\n        <string>";

/// The launch agent from the configuration up to the working directory.
pub const PLIST_BEFORE_WORKING_DIRECTORY: &'static str = "</string>\n        <string>run</string>\n    </array>\n    <key>WorkingDirectory</key>\n    <string>";

/// The launch agent from the working directory up to the standard output log.
pub const PLIST_BEFORE_STDOUT: &'static str = "</string>\n    <key>RunAtLoad</key>\n    <true/>\n    <key>KeepAlive</key>\n    <dict>\n        <key>SuccessfulExit</key>\n        <false/>\n    </dict>\n    <key>ProcessType</key>\n    <string>Background</string>\n    <key>ThrottleInterval</key>\n    <integer>10</integer>\n    <key>ExitTimeOut</key>\n    <integer>20</integer>\n    <key>StandardOutPath</key>\n    <string>";

/// The launch agent from the standard output log up to the standard error log.
pub const PLIST_BEFORE_STDERR: &'static str = "</string>\n    <key>StandardErrorPath</key>\n    <string>";

/// The end of the launch agent.
pub const PLIST_TAIL: &'static str = "</string>\n    <key>EnvironmentVariables</key>\n    <dict>\n        <key>RUST_LOG</key>\n        <string>info</string>\n    </dict>\n</dict>\n</plist>\n";

/// The launch agent: it runs the installed binary with the installed
/// configuration at login, restarts it after a failure, and sends its output
/// to the logs; every path is XML-escaped.
pub open spec fn plist_text(paths: ServicePaths) -> Seq<char> {
    PLIST_HEAD@ + SERVICE_LABEL@ + PLIST_BEFORE_BINARY@ + xml_escaped(paths.binary@)
        + PLIST_BEFORE_CONFIG@ + xml_escaped(paths.config@) + PLIST_BEFORE_WORKING_DIRECTORY@
        + xml_escaped(paths.application_dir@) + PLIST_BEFORE_STDOUT@ + xml_escaped(
        path_join(paths.logs@, "service.stdout.log"@),
    ) + PLIST_BEFORE_STDERR@ + xml_escaped(path_join(paths.logs@, "service.stderr.log"@))
        + PLIST_TAIL@
}

/// The launch agent for the installed files (see `plist_text`).
pub fn render_plist(paths: &ServicePaths) -> (text: String)
    ensures
        text@ == plist_text(*paths),
{
    let mut text = String::from_str(PLIST_HEAD);
    text.append(SERVICE_LABEL);
    text.append(PLIST_BEFORE_BINARY);
    xml_escape(&mut text, paths.binary.as_str());
    text.append(PLIST_BEFORE_CONFIG);
    xml_escape(&mut text, paths.config.as_str());
    text.append(PLIST_BEFORE_WORKING_DIRECTORY);
    xml_escape(&mut text, paths.application_dir.as_str());
    text.append(PLIST_BEFORE_STDOUT);
    let stdout = paths.stdout_log();
    xml_escape(&mut text, stdout.as_str());
    text.append(PLIST_BEFORE_STDERR);
    let stderr = paths.stderr_log();
    xml_escape(&mut text, stderr.as_str());
    text.append(PLIST_TAIL);
    assert(text@ =~= plist_text(*paths));
    text
}


/// Without `purge`, an uninstall removes no directory, so the configuration,
/// the database and the logs stay; `purge` adds exactly the application
/// directory and the logs.
pub proof fn lemma_uninstall_keeps_data_without_purge(paths: ServicePaths)
    ensures
        forall|k: int|
            0 <= k < uninstall_plan(paths, false).len() ==> !(#[trigger] uninstall_plan(
                paths,
                false,
            )[k] is Directory),
        uninstall_plan(paths, true) == uninstall_plan(paths, false) + seq![
            Removal::Directory(paths.application_dir),
            Removal::Directory(paths.logs),
        ],
{
}


/// The launcher an install writes is one an uninstall recognizes as its
/// own, whatever the paths.
pub proof fn lemma_rendered_launchers_are_managed(binary: Seq<char>, config: Seq<char>)
    ensures
        is_managed_launcher(cli_launcher_text(binary, config)),
{
    let text = cli_launcher_text(binary, config);
    let prefix = CLI_LAUNCHER_PREFIX@;
    assert(text =~= prefix + ("\nexec "@ + shell_quoted(binary) + " --config "@ + shell_quoted(
        config,
    ) + " \"$@\"\n"@));
    assert(text.take(prefix.len() as int) =~= prefix);
}

} // verus!
