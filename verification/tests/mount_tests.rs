use bwrap_winer::configuration_management::load_configuration_hierarchy;
use bwrap_winer::core_data_structures::{MountSpecification, SandboxContext, TargetCategory, TargetSpecification};
use bwrap_winer::host_snapshot::{HostEnvironment, HostPathRecord, HostSnapshot};
use bwrap_winer::sandbox_mount_pipeline::{
    bind_mounts_of, collect_mount_specifications, collection_host_queries,
    determine_if_path_is_prohibited_shared_system_directory, mount_sources_to_create, parse_usize,
    resolve_and_heal_mounts, sort_by_byte_length, MountConfigurationError, MountNotice,
};

fn s(x: &str) -> String {
    x.to_string()
}

fn record(path: &str, exists: bool, is_directory: bool) -> HostPathRecord {
    HostPathRecord {
        path: s(path),
        absolute: s(path),
        exists,
        is_file: exists && !is_directory,
        is_directory,
        canonical: if exists { Some(s(path)) } else { None },
        is_linux_elf: false,
    }
}

fn no_environment() -> HostEnvironment {
    HostEnvironment { home: Some(s("/home/u")), search_path: None, current_directory: None, xdg_runtime_dir: None, wayland_display: None }
}

fn context(global: &str, environment: &[(&str, &str)]) -> SandboxContext {
    let vars: Vec<(String, String)> = environment.iter().map(|(k, v)| (s(k), s(v))).collect();
    let pyramid = load_configuration_hierarchy(global, "", "", &vars, Some(s("/home/u")));
    SandboxContext::new(s("app"), s("/home/u"), s("u"), "/data", pyramid)
}

fn windows_target(exe: &str, secondary: &[&str]) -> TargetSpecification {
    TargetSpecification {
        string_representing_raw_user_input_target: s(exe),
        option_representing_absolute_path_to_primary_target_executable: Some(s(exe)),
        vector_of_strings_representing_launcher_prefix_commands: Vec::new(),
        vector_of_path_bufs_representing_secondary_penetration_mount_sources: secondary.iter().map(|x| s(x)).collect(),
        target_category_enum_representing_execution_type: TargetCategory::PhysicalWindowsExecutable {
            path_buf_representing_host_absolute_path: s(exe),
        },
        vector_of_strings_representing_remaining_cli_arguments: Vec::new(),
    }
}

fn virtual_target(name: &str) -> TargetSpecification {
    TargetSpecification {
        string_representing_raw_user_input_target: s(name),
        option_representing_absolute_path_to_primary_target_executable: None,
        vector_of_strings_representing_launcher_prefix_commands: Vec::new(),
        vector_of_path_bufs_representing_secondary_penetration_mount_sources: Vec::new(),
        target_category_enum_representing_execution_type: TargetCategory::VirtualWineCommand {
            string_representing_command_name: s(name),
        },
        vector_of_strings_representing_remaining_cli_arguments: Vec::new(),
    }
}

fn mount(source: &str, destination: &str, readonly: bool, try_only: bool, creation_allowed: bool) -> MountSpecification {
    MountSpecification {
        path_buf_representing_host_source: s(source),
        path_buf_representing_container_destination: s(destination),
        boolean_flag_indicating_readonly: readonly,
        boolean_flag_indicating_try_only: try_only,
        boolean_flag_indicating_host_directory_creation_allowed: creation_allowed,
    }
}

fn described(m: &MountSpecification) -> (String, String, bool, bool, bool) {
    (
        m.path_buf_representing_host_source.clone(),
        m.path_buf_representing_container_destination.clone(),
        m.boolean_flag_indicating_readonly,
        m.boolean_flag_indicating_try_only,
        m.boolean_flag_indicating_host_directory_creation_allowed,
    )
}

#[test]
fn prohibited_directories() {
    for p in ["/", "/usr", "/usr/local", "/opt", "/mnt", "/media", "/etc", "/var", "/sys", "/dev", "/run", "/tmp"] {
        assert!(determine_if_path_is_prohibited_shared_system_directory(p, "/home/u"), "{}", p);
    }
    assert!(determine_if_path_is_prohibited_shared_system_directory("/home/u", "/home/u"));
    assert!(determine_if_path_is_prohibited_shared_system_directory("/home/u/", "/home/u"));
    assert!(!determine_if_path_is_prohibited_shared_system_directory("/home/u/games", "/home/u"));
    assert!(!determine_if_path_is_prohibited_shared_system_directory("/opt/game", "/home/u"));
    assert!(!determine_if_path_is_prohibited_shared_system_directory("/usr/share", "/home/u"));
}

#[test]
fn penetration_depth_numbers() {
    assert_eq!(parse_usize("0"), Some(0));
    assert_eq!(parse_usize("12"), Some(12));
    assert_eq!(parse_usize("+3"), Some(3));
    assert_eq!(parse_usize(""), None);
    assert_eq!(parse_usize("+"), None);
    assert_eq!(parse_usize("-1"), None);
    assert_eq!(parse_usize("1a"), None);
    assert_eq!(parse_usize(" 1"), None);
    assert_eq!(parse_usize("99999999999999999999999"), None);
}

#[test]
fn bind_lists() {
    let host = HostSnapshot::new();
    let r = bind_mounts_of("/a:/b, /c ,,", false, &host).unwrap();
    let got: Vec<_> = r.iter().map(described).collect();
    assert_eq!(got, vec![(s("/a"), s("/b"), false, false, false), (s("/c"), s("/c"), false, false, false)]);
    let ro = bind_mounts_of("/x", true, &host).unwrap();
    assert_eq!(described(&ro[0]), (s("/x"), s("/x"), true, false, false));
    assert_eq!(bind_mounts_of("", false, &host).unwrap().len(), 0);
}

#[test]
fn bind_list_paths_are_made_absolute() {
    let mut rel = record("games", true, true);
    rel.absolute = s("/home/u/games");
    let host = HostSnapshot { records: vec![rel] };
    let r = bind_mounts_of("games", false, &host).unwrap();
    assert_eq!(described(&r[0]), (s("/home/u/games"), s("/home/u/games"), false, false, false));
}

#[test]
fn bind_list_empty_host_side_is_an_error() {
    let host = HostSnapshot::new();
    assert_eq!(bind_mounts_of(":/b", false, &host).err(), Some(MountConfigurationError::EmptyHostPath { read_only: false }));
    assert_eq!(bind_mounts_of("/ok, :/b", true, &host).err(), Some(MountConfigurationError::EmptyHostPath { read_only: true }));
}

#[test]
fn bind_list_empty_container_side_is_an_error() {
    let host = HostSnapshot::new();
    assert_eq!(bind_mounts_of("/a:", false, &host).err(), Some(MountConfigurationError::EmptyContainerPath { read_only: false }));
    assert_eq!(bind_mounts_of("/a: ", true, &host).err(), Some(MountConfigurationError::EmptyContainerPath { read_only: true }));
}

#[test]
fn collection_mounts_the_program_directory() {
    let ctx = context("", &[]);
    let target = windows_target("/home/u/games/app.exe", &[]);
    let c = collect_mount_specifications(&ctx, &target, &None, &no_environment(), &HostSnapshot::new()).unwrap();
    assert_eq!(described(&c.mounts[0]), (s("/home/u/games"), s("/home/u/games"), false, false, false));
    assert_eq!(c.mounts.len(), 1 + 10);
    assert_eq!(described(&c.mounts[1]), (s("/tmp/.X11-unix"), s("/tmp/.X11-unix"), false, true, false));
    assert_eq!(described(&c.mounts[7]), (s("/home/u/.local/share/fonts"), s("/home/u/.local/share/fonts"), true, true, false));
    assert!(c.notices.is_empty());
    assert!(c.prefix_directories_to_create.is_empty());
}

#[test]
fn collection_depth_zero_mounts_the_file_only() {
    let ctx = context("WINER_PENETRATE = 0\n", &[]);
    let target = windows_target("/home/u/games/app.exe", &[]);
    let c = collect_mount_specifications(&ctx, &target, &None, &no_environment(), &HostSnapshot::new()).unwrap();
    assert_eq!(described(&c.mounts[0]), (s("/home/u/games/app.exe"), s("/home/u/games/app.exe"), true, false, false));
}

#[test]
fn collection_deeper_penetration_stops_before_home() {
    let ctx = context("WINER_PENETRATE = 5\n", &[]);
    let target = windows_target("/home/u/games/sub/app.exe", &[]);
    let c = collect_mount_specifications(&ctx, &target, &None, &no_environment(), &HostSnapshot::new()).unwrap();
    assert_eq!(described(&c.mounts[0]), (s("/home/u/games"), s("/home/u/games"), false, false, false));
    assert!(matches!(&c.notices[0], MountNotice::PenetrationStopped { at } if at == "/home/u/games"));
}

#[test]
fn collection_shields_shared_directories() {
    let ctx = context("", &[]);
    let target = windows_target("/opt/app.exe", &["/usr", "/home/u/data"]);
    let c = collect_mount_specifications(&ctx, &target, &Some(s("/usr/bin/wine")), &no_environment(), &HostSnapshot::new()).unwrap();
    assert_eq!(described(&c.mounts[0]), (s("/opt/app.exe"), s("/opt/app.exe"), true, true, false));
    assert_eq!(described(&c.mounts[1]), (s("/home/u/data"), s("/home/u/data"), false, true, false));
    assert!(c.mounts.iter().all(|m| !determine_if_path_is_prohibited_shared_system_directory(
        &m.path_buf_representing_host_source,
        "/home/u"
    ) || m.path_buf_representing_host_source == "/opt/app.exe"
        || m.boolean_flag_indicating_try_only));
    assert!(matches!(&c.notices[0], MountNotice::PenetrationStopped { at } if at == "/opt/app.exe"));
    assert!(matches!(&c.notices[1], MountNotice::TargetInProhibitedDirectory { path } if path == "/opt/app.exe"));
    assert!(matches!(&c.notices[2], MountNotice::SecondaryRefused { path } if path == "/usr"));
    assert!(matches!(&c.notices[3], MountNotice::RunnerRootProhibited { root } if root == "/usr"));
}

#[test]
fn collection_mounts_custom_runner_read_only() {
    let ctx = context("WINER_WINE_PATH = /home/u/runners/ge/bin/wine\n", &[]);
    let c = collect_mount_specifications(&ctx, &virtual_target("cmd"), &None, &no_environment(), &HostSnapshot::new()).unwrap();
    assert_eq!(described(&c.mounts[0]), (s("/home/u/runners/ge"), s("/home/u/runners/ge"), true, false, false));
}

#[test]
fn collection_wineprefix_inside_and_outside_the_sandbox() {
    let ctx = context("", &[("WINEPREFIX", "/data/app/sandbox_home/.wine")]);
    let c = collect_mount_specifications(&ctx, &virtual_target("cmd"), &None, &no_environment(), &HostSnapshot::new()).unwrap();
    assert_eq!(c.prefix_directories_to_create, vec![s("/data/app/sandbox_home/.wine")]);
    let ctx = context("", &[("WINEPREFIX", "/srv/prefix")]);
    let c = collect_mount_specifications(&ctx, &virtual_target("cmd"), &None, &no_environment(), &HostSnapshot::new()).unwrap();
    assert_eq!(described(&c.mounts[0]), (s("/srv/prefix"), s("/srv/prefix"), false, false, true));
}

#[test]
fn collection_refuses_a_broken_bind_list() {
    let ctx = context("WINER_BIND = :/x\n", &[]);
    let r = collect_mount_specifications(&ctx, &virtual_target("cmd"), &None, &no_environment(), &HostSnapshot::new());
    assert_eq!(r.err().map(|f| f.error), Some(MountConfigurationError::EmptyHostPath { read_only: false }));
    let ctx = context("WINER_RO_BIND = /y:\n", &[]);
    let r = collect_mount_specifications(&ctx, &virtual_target("cmd"), &None, &no_environment(), &HostSnapshot::new());
    assert_eq!(r.err().map(|f| f.error), Some(MountConfigurationError::EmptyContainerPath { read_only: true }));
}

#[test]
fn collection_sockets_from_the_runtime_directory() {
    let ctx = context("", &[]);
    let env = HostEnvironment {
        home: Some(s("/home/u")),
        search_path: None,
        current_directory: None,
        xdg_runtime_dir: Some(s("/run/user/1000")),
        wayland_display: Some(s("wayland-0")),
    };
    let c = collect_mount_specifications(&ctx, &virtual_target("cmd"), &None, &env, &HostSnapshot::new()).unwrap();
    assert_eq!(described(&c.mounts[0]), (s("/run/user/1000/wayland-0"), s("/run/user/1000/wayland-0"), false, true, false));
    assert_eq!(described(&c.mounts[2]), (s("/run/user/1000/pipewire-0"), s("/run/user/1000/pipewire-0"), false, true, false));
    assert_eq!(c.mounts.len(), 1 + 1 + 5 + 9);
}

#[test]
fn collection_queries_list_what_is_read() {
    let ctx = context("WINER_BIND = games:/g\n", &[("WINEPREFIX", "~/pfx")]);
    let q = collection_host_queries(&ctx, &windows_target("/home/u/a.exe", &[]), &Some(s("/r/bin/wine")));
    assert_eq!(
        q,
        vec![s("/data/app/sandbox_home"), s("/home/u/a.exe"), s("/home/u/pfx"), s("/r/bin/wine"), s("games"), s("/g")]
    );
}

#[test]
fn sorting_by_byte_length() {
    assert_eq!(
        sort_by_byte_length(vec![s("/éé"), s("/aaa"), s("/b")]),
        vec![s("/b"), s("/aaa"), s("/éé")]
    );
}

#[test]
fn sources_to_create_are_missing_creatable_ones() {
    let host = HostSnapshot { records: vec![record("/exists", true, true)] };
    let mounts = vec![
        mount("/exists", "/exists", false, false, true),
        mount("/missing", "/missing", false, false, true),
        mount("/optional", "/optional", false, true, true),
        mount("/required", "/required", false, false, false),
    ];
    assert_eq!(mount_sources_to_create(&mounts, &host), vec![s("/missing")]);
}

#[test]
fn healing_keeps_present_mounts_and_sorts_directories() {
    let ctx = context("", &[]);
    let host = HostSnapshot {
        records: vec![record("/home/u/games", true, true), record("/srv/data", true, true), record("/tmp/.X11-unix", true, true)],
    };
    let mounts = vec![
        mount("/home/u/games", "/home/u/games", false, false, false),
        mount("/run/user/1000/bus", "/run/user/1000/bus", false, true, false),
        mount("/srv/data", "/mnt/data", true, false, false),
        mount("/tmp/.X11-unix", "/tmp/.X11-unix", false, true, false),
    ];
    let healed = match resolve_and_heal_mounts(mounts, &ctx, &host) {
        Ok(h) => h,
        Err(e) => panic!("unexpected missing source {}", e.path),
    };
    let kept: Vec<_> = healed.mounts.iter().map(|m| m.path_buf_representing_host_source.clone()).collect();
    assert_eq!(kept, vec![s("/home/u/games"), s("/srv/data"), s("/tmp/.X11-unix")]);
    assert_eq!(healed.sandbox_mount_points, vec![s("/data/app/sandbox_home/games")]);
    assert_eq!(
        healed.sorted_directories,
        vec![s("/mnt"), s("/home"), s("/home/u"), s("/home/u/games"), s("/tmp/.X11-unix")]
    );
}

#[test]
fn healing_fails_on_a_missing_required_source() {
    let ctx = context("", &[]);
    let mounts = vec![
        mount("/optional", "/optional", false, true, false),
        mount("/required", "/required", false, false, false),
        mount("/later", "/later", false, false, false),
    ];
    match resolve_and_heal_mounts(mounts, &ctx, &HostSnapshot::new()) {
        Ok(_) => panic!("healing should fail"),
        Err(e) => {
            assert_eq!(e.path, "/required");
            assert!(e.sandbox_mount_points.is_empty());
        },
    }
}

#[test]
fn collection_program_directly_in_home_is_mounted_alone_read_only() {
    for depth in ["1", "3"] {
        let ctx = context(&format!("WINER_PENETRATE = {}\n", depth), &[]);
        let target = windows_target("/home/u/setup.exe", &[]);
        let c = collect_mount_specifications(&ctx, &target, &None, &no_environment(), &HostSnapshot::new()).unwrap();
        assert_eq!(described(&c.mounts[0]), (s("/home/u/setup.exe"), s("/home/u/setup.exe"), true, true, false));
        assert!(matches!(&c.notices[0], MountNotice::PenetrationStopped { at } if at == "/home/u/setup.exe"));
        assert!(matches!(&c.notices[1], MountNotice::TargetInProhibitedDirectory { path } if path == "/home/u/setup.exe"));
    }
    let ctx = context("", &[]);
    let target = windows_target("/tmp/setup.exe", &[]);
    let c = collect_mount_specifications(&ctx, &target, &None, &no_environment(), &HostSnapshot::new()).unwrap();
    assert_eq!(described(&c.mounts[0]), (s("/tmp/setup.exe"), s("/tmp/setup.exe"), true, true, false));
}

#[test]
fn a_broken_bind_list_still_reports_the_work_found_before_it() {
    let ctx = context("WINER_BIND = :/x\n", &[("WINEPREFIX", "/data/app/sandbox_home/.wine")]);
    let target = windows_target("/opt/app.exe", &[]);
    match collect_mount_specifications(&ctx, &target, &None, &no_environment(), &HostSnapshot::new()) {
        Ok(_) => panic!("the bind list is broken"),
        Err(f) => {
            assert_eq!(f.error, MountConfigurationError::EmptyHostPath { read_only: false });
            assert_eq!(f.prefix_directories_to_create, vec![s("/data/app/sandbox_home/.wine")]);
            assert!(matches!(&f.notices[0], MountNotice::PenetrationStopped { at } if at == "/opt/app.exe"));
            assert!(matches!(&f.notices[1], MountNotice::TargetInProhibitedDirectory { .. }));
        },
    }
}

#[test]
fn healing_failure_keeps_the_mount_points_before_it() {
    let ctx = context("", &[]);
    let host = HostSnapshot { records: vec![record("/home/u/games", true, true)] };
    let mounts = vec![
        mount("/home/u/games", "/home/u/games", false, false, false),
        mount("/required", "/required", false, false, false),
        mount("/home/u/later", "/home/u/later", false, false, true),
    ];
    assert!(mount_sources_to_create(&mounts, &host).is_empty());
    match resolve_and_heal_mounts(mounts, &ctx, &host) {
        Ok(_) => panic!("healing should fail"),
        Err(e) => {
            assert_eq!(e.path, "/required");
            assert_eq!(e.sandbox_mount_points, vec![s("/data/app/sandbox_home/games")]);
        },
    }
}
