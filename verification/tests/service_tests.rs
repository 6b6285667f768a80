use simple_profiler::service::{
    is_managed_cli_launcher, join, may_replace_cli_launcher, parse_launchctl_status,
    render_cli_launcher, render_plist, require_macos, should_remove_cli_launcher,
    uninstall_files, LauncherFile, Removal, ServiceError, ServiceManager, ServicePaths,
    CLI_LAUNCHER_PREFIX, LEGACY_CLI_LAUNCHER,
};

#[test]
fn renders_absolute_launch_agent_paths_and_escapes_xml() {
    let paths = ServicePaths::for_home("/Users/Test & User");
    let plist = render_plist(&paths);

    assert!(plist.contains("com.simple-profiler.agent"));
    assert!(plist.contains("/Users/Test &amp; User/Library/Application Support"));
    assert!(plist.contains("<key>SuccessfulExit</key>"));
    assert!(plist.contains("<key>ExitTimeOut</key>"));
}

#[test]
fn renders_a_managed_cli_launcher_with_shell_quoted_paths() {
    let paths = ServicePaths::for_home("/Users/Test's Home");
    let launcher = render_cli_launcher(&paths);

    assert!(launcher.starts_with(CLI_LAUNCHER_PREFIX));
    assert!(launcher.contains("'/Users/Test'\"'\"'s Home/Library/Application Support"));
    assert!(launcher.contains("--config"));
    assert!(launcher.ends_with("\"$@\"\n"));
}

#[test]
fn parses_running_launchctl_output() {
    let status = parse_launchctl_status(
        "state = running\n\tpid = 1234\n\tlast exit code = 2\n",
        true,
    );

    assert!(status.installed);
    assert!(status.loaded);
    assert!(status.running());
    assert_eq!(status.pid, Some(1234));
    assert_eq!(status.last_exit_code, Some(2));
}

#[test]
fn parses_a_stopped_service_and_ignores_bad_numbers() {
    let status = parse_launchctl_status(
        "gui/501/com.simple-profiler.agent = {\n\tstate = not running\r\n\tpid = none\n\tlast exit code = -15\n}",
        false,
    );

    assert!(!status.installed);
    assert!(status.loaded);
    assert_eq!(status.state.as_deref(), Some("not running"));
    assert_eq!(status.pid, None);
    assert_eq!(status.last_exit_code, Some(-15));
    assert!(!status.running());
}

#[test]
fn lays_out_the_service_files_under_home() {
    let paths = ServicePaths::for_home("/Users/me/");
    assert_eq!(
        paths.application_dir,
        "/Users/me/Library/Application Support/SimpleProfiler"
    );
    assert_eq!(
        paths.binary,
        "/Users/me/Library/Application Support/SimpleProfiler/bin/simple-profiler"
    );
    assert_eq!(
        paths.database,
        "/Users/me/Library/Application Support/SimpleProfiler/data/simple-profiler.sqlite3"
    );
    assert_eq!(paths.logs, "/Users/me/Library/Logs/SimpleProfiler");
    assert_eq!(
        paths.plist,
        "/Users/me/Library/LaunchAgents/com.simple-profiler.agent.plist"
    );
    assert_eq!(paths.cli_launcher, "/Users/me/.local/bin/simple-profiler");
    assert_eq!(
        paths.stdout_log(),
        "/Users/me/Library/Logs/SimpleProfiler/service.stdout.log"
    );
    assert_eq!(join("", "bin"), "bin");
}

#[test]
fn service_management_needs_macos_and_home() {
    assert_eq!(require_macos(false), Err(ServiceError::UnsupportedPlatform));
    assert!(ServiceManager::from_environment(Some("/Users/me"), false).is_err());
    assert!(matches!(
        ServiceManager::from_environment(None, true),
        Err(ServiceError::HomeNotSet)
    ));
    let manager = ServiceManager::from_environment(Some("/Users/me"), true).expect("manager");
    assert_eq!(
        manager.paths().config,
        "/Users/me/Library/Application Support/SimpleProfiler/config.toml"
    );
    assert_eq!(manager.domain(501), "gui/501");
    assert_eq!(manager.target(501), "gui/501/com.simple-profiler.agent");
}

#[test]
fn recognizes_managed_launchers_only() {
    let paths = ServicePaths::for_home("/Users/me");
    assert!(is_managed_cli_launcher(&render_cli_launcher(&paths)));
    assert!(is_managed_cli_launcher(LEGACY_CLI_LAUNCHER));
    assert!(!is_managed_cli_launcher("user-owned\n"));

    assert!(may_replace_cli_launcher(&LauncherFile::Missing, &paths));
    assert!(may_replace_cli_launcher(
        &LauncherFile::Symlink(paths.binary.clone()),
        &paths
    ));
    assert!(!may_replace_cli_launcher(
        &LauncherFile::File("user-owned\n".to_owned()),
        &paths
    ));
    assert!(!may_replace_cli_launcher(&LauncherFile::Other, &paths));
    assert!(!should_remove_cli_launcher(&LauncherFile::Missing, &paths));
    assert!(!should_remove_cli_launcher(
        &LauncherFile::File("user-owned\n".to_owned()),
        &paths
    ));
    assert!(should_remove_cli_launcher(
        &LauncherFile::File(render_cli_launcher(&paths)),
        &paths
    ));
}

#[test]
fn uninstall_keeps_data_unless_purged() {
    let paths = ServicePaths::for_home("/Users/me");
    let plan = uninstall_files(&paths, false);
    assert_eq!(
        plan,
        vec![
            Removal::ManagedCliLauncher(paths.cli_launcher.clone()),
            Removal::File(paths.plist.clone()),
            Removal::File(paths.binary.clone()),
        ]
    );
    let purge = uninstall_files(&paths, true);
    assert_eq!(purge.len(), 5);
    assert_eq!(purge[3], Removal::Directory(paths.application_dir.clone()));
    assert_eq!(purge[4], Removal::Directory(paths.logs.clone()));
}
