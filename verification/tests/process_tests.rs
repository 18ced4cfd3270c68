use bwrap_winer::configuration_management::load_configuration_hierarchy;
use bwrap_winer::core_data_structures::{MountSpecification, SandboxContext, TargetCategory, TargetSpecification};
use bwrap_winer::host_snapshot::{HostPathRecord, HostSnapshot};
use bwrap_winer::process_execution_builder::{
    assemble_bubblewrap_arguments, assembly_host_queries, is_help_requested, is_list_requested,
};

fn s(x: &str) -> String {
    x.to_string()
}

fn strings(v: &[&str]) -> Vec<String> {
    v.iter().map(|x| s(x)).collect()
}

fn dir(path: &str) -> HostPathRecord {
    HostPathRecord {
        path: s(path),
        absolute: s(path),
        exists: true,
        is_file: false,
        is_directory: true,
        canonical: Some(s(path)),
        is_linux_elf: false,
    }
}

fn context(global: &str, environment: &[(&str, &str)]) -> SandboxContext {
    let vars: Vec<(String, String)> = environment.iter().map(|(k, v)| (s(k), s(v))).collect();
    let pyramid = load_configuration_hierarchy(global, "", "", &vars, Some(s("/home/u")));
    SandboxContext::new(s("app"), s("/home/u"), s("u"), "/data", pyramid)
}

fn target(category: TargetCategory, prefixes: &[&str], remaining: &[&str]) -> TargetSpecification {
    TargetSpecification {
        string_representing_raw_user_input_target: s("t"),
        option_representing_absolute_path_to_primary_target_executable: None,
        vector_of_strings_representing_launcher_prefix_commands: strings(prefixes),
        vector_of_path_bufs_representing_secondary_penetration_mount_sources: Vec::new(),
        target_category_enum_representing_execution_type: category,
        vector_of_strings_representing_remaining_cli_arguments: strings(remaining),
    }
}

fn virtual_command(name: &str) -> TargetCategory {
    TargetCategory::VirtualWineCommand { string_representing_command_name: s(name) }
}

fn readonly_mount(p: &str) -> MountSpecification {
    MountSpecification {
        path_buf_representing_host_source: s(p),
        path_buf_representing_container_destination: s(p),
        boolean_flag_indicating_readonly: true,
        boolean_flag_indicating_try_only: false,
        boolean_flag_indicating_host_directory_creation_allowed: false,
    }
}

#[test]
fn help_is_shown_for_flags_or_an_empty_command_line() {
    assert!(is_help_requested(&Vec::new(), false, false));
    assert!(!is_help_requested(&Vec::new(), true, false));
    assert!(!is_help_requested(&Vec::new(), false, true));
    assert!(is_help_requested(&strings(&["-h"]), true, true));
    assert!(is_help_requested(&strings(&["--help", "x"]), false, false));
    assert!(!is_help_requested(&strings(&["app.exe"]), false, false));
}

#[test]
fn list_is_asked_for_first() {
    assert!(is_list_requested(&strings(&["--list"])));
    assert!(!is_list_requested(&strings(&["app.exe", "--list"])));
    assert!(!is_list_requested(&Vec::new()));
}

#[test]
fn arguments_for_a_virtual_command_on_a_bare_host() {
    let ctx = context("", &[]);
    let t = target(virtual_command("cmd"), &[], &["/c", "dir"]);
    let args = assemble_bubblewrap_arguments(&ctx, &t, &strings(&["/home"]), &vec![readonly_mount("/a")], &None, &HostSnapshot::new())
        .unwrap();
    assert_eq!(
        args,
        strings(&[
            "--tmpfs", "/tmp", "--tmpfs", "/var", "--tmpfs", "/run",
            "--dir", "/home",
            "--bind", "/data/app/sandbox_home", "/home/u",
            "--setenv", "HOME", "/home/u",
            "--setenv", "USER", "u",
            "--setenv", "LOGNAME", "u",
            "--ro-bind", "/a", "/a",
            "--unsetenv", "LD_PRELOAD",
            "--setenv", "GST_PLUGIN_PATH", "",
            "--die-with-parent",
            "--chdir", "/home/u",
            "wine", "cmd", "/c", "dir",
        ])
    );
}

#[test]
fn arguments_follow_the_configuration() {
    let ctx = context(
        "FOO = bar\nLD_LIBRARY_PATH = /libs\nGST_PLUGIN_PATH = /gst\nWINER_GAMEMODE = 1\nWINER_EXE_ARGS = -x  -y\n",
        &[("WINER_NET", "0"), ("WINER_SHARE_PID", "0"), ("WINER_IPC", "0"), ("WINER_DEV", "0"), ("WINEPREFIX", "/data/app/sandbox_home/.wine")],
    );
    let host = HostSnapshot { records: vec![dir("/usr"), dir("/lib64"), dir("/dev/dri"), dir("/dev/nvidia0"), dir("/dev/nvidiactl")] };
    let t = target(virtual_command("notepad"), &["explorer", "/desktop=sandbox,800x600"], &["file.txt"]);
    let args = assemble_bubblewrap_arguments(&ctx, &t, &Vec::new(), &Vec::new(), &None, &host).unwrap();
    assert_eq!(
        args,
        strings(&[
            "--ro-bind", "/usr", "/usr",
            "--ro-bind-try", "/lib64", "/lib64",
            "--tmpfs", "/tmp", "--tmpfs", "/var", "--tmpfs", "/run",
            "--unshare-net", "--unshare-pid", "--unshare-ipc",
            "--dev", "/dev",
            "--dev-bind", "/dev/dri", "/dev/dri",
            "--dev-bind", "/dev/nvidia0", "/dev/nvidia0",
            "--dev-bind", "/dev/nvidiactl", "/dev/nvidiactl",
            "--bind", "/data/app/sandbox_home", "/home/u",
            "--setenv", "HOME", "/home/u",
            "--setenv", "USER", "u",
            "--setenv", "LOGNAME", "u",
            "--setenv", "WINEPREFIX", "/home/u/.wine",
            "--setenv", "FOO", "bar",
            "--setenv", "LD_LIBRARY_PATH", "/libs",
            "--setenv", "GST_PLUGIN_PATH", "/gst",
            "--unsetenv", "LD_PRELOAD",
            "--die-with-parent",
            "--chdir", "/home/u",
            "gamemoderun", "wine", "explorer", "/desktop=sandbox,800x600", "notepad", "file.txt",
        ])
    );
}

#[test]
fn arguments_for_a_windows_program_with_a_custom_runner() {
    let ctx = context("", &[]);
    let host = HostSnapshot {
        records: vec![dir("/r/ge/lib"), dir("/r/ge/lib64/gstreamer-1.0"), dir("/r/ge/files/lib")],
    };
    let t = target(
        TargetCategory::PhysicalWindowsExecutable { path_buf_representing_host_absolute_path: s("/home/u/games/app.exe") },
        &[],
        &["-windowed"],
    );
    let args = assemble_bubblewrap_arguments(&ctx, &t, &Vec::new(), &Vec::new(), &Some(s("/r/ge/bin/wine")), &host).unwrap();
    let tail: Vec<String> = args[args.len() - 14..].to_vec();
    assert_eq!(
        tail,
        strings(&[
            "--unsetenv", "LD_PRELOAD",
            "--setenv", "LD_LIBRARY_PATH", "/r/ge/lib:/r/ge/files/lib",
            "--setenv", "GST_PLUGIN_PATH", "/r/ge/lib64/gstreamer-1.0",
            "--die-with-parent",
            "--chdir", "/home/u/games",
            "/r/ge/bin/wine", "/home/u/games/app.exe", "-windowed",
        ])
    );
}

#[test]
fn arguments_map_paths_inside_the_sandbox_home() {
    let ctx = context("", &[("WINER_EXE_PATH", "/data/app/sandbox_home/drive_c/app.exe")]);
    let t = target(
        TargetCategory::PhysicalWindowsExecutable {
            path_buf_representing_host_absolute_path: s("/data/app/sandbox_home/drive_c/app.exe"),
        },
        &[],
        &[],
    );
    let args = assemble_bubblewrap_arguments(&ctx, &t, &Vec::new(), &Vec::new(), &None, &HostSnapshot::new()).unwrap();
    let tail: Vec<String> = args[args.len() - 4..].to_vec();
    assert_eq!(tail, strings(&["--chdir", "/home/u/drive_c", "wine", "/home/u/drive_c/app.exe"]));
    let k = args.iter().position(|a| a == "WINER_EXE_PATH").unwrap();
    assert_eq!(args[k - 1], "--setenv");
    assert_eq!(args[k + 1], "/home/u/drive_c/app.exe");
}

#[test]
fn blocked_linux_target_gets_no_command_line() {
    let ctx = context("", &[]);
    let t = target(TargetCategory::HostLinuxExecutableBlock, &[], &[]);
    assert_eq!(assemble_bubblewrap_arguments(&ctx, &t, &Vec::new(), &Vec::new(), &None, &HostSnapshot::new()), None);
}

#[test]
fn safeguards_are_always_present() {
    for global in ["", "WINER_NET = 0\nWINER_DEV = 0\n", "LD_PRELOAD = /evil.so\n"] {
        let ctx = context(global, &[]);
        let t = target(virtual_command("cmd"), &[], &["--die-with-parent-not"]);
        let args = assemble_bubblewrap_arguments(&ctx, &t, &Vec::new(), &Vec::new(), &None, &HostSnapshot::new()).unwrap();
        assert!(args.iter().any(|a| a == "--die-with-parent"));
        assert!(args.windows(2).any(|w| w[0] == "--unsetenv" && w[1] == "LD_PRELOAD"));
        assert!(args.windows(3).any(|w| w[0] == "--bind" && w[1] == "/data/app/sandbox_home" && w[2] == "/home/u"));
    }
}

#[test]
fn target_arguments_come_last() {
    let ctx = context("WINER_EXE_ARGS = -cfg\n", &[]);
    let t = target(virtual_command("cmd"), &["pre"], &["one", "two words", "--three"]);
    let args = assemble_bubblewrap_arguments(&ctx, &t, &Vec::new(), &Vec::new(), &None, &HostSnapshot::new()).unwrap();
    assert_eq!(args[args.len() - 3..].to_vec(), strings(&["one", "two words", "--three"]));
    assert_eq!(args[args.len() - 6..args.len() - 3].to_vec(), strings(&["wine", "pre", "cmd"]));
    assert!(!args.iter().any(|a| a == "-cfg"));
}

#[test]
fn assembly_queries_name_every_path_read() {
    let ctx = context("", &[("WINEPREFIX", "/pfx")]);
    let t = target(
        TargetCategory::PhysicalWindowsExecutable { path_buf_representing_host_absolute_path: s("/g/app.exe") },
        &[],
        &[],
    );
    let q = assembly_host_queries(&ctx, &t, &Some(s("/r/ge/bin/wine")), &HostSnapshot::new());
    assert_eq!(q.len(), 4 + 4 + 2 + 14 + 2 + 1 + 1 + 1 + 8);
    assert_eq!(q[..4].to_vec(), strings(&["/usr", "/etc", "/sys", "/proc"]));
    assert_eq!(
        q[24..29].to_vec(),
        strings(&["/data/app/sandbox_home", "/r/ge/bin/wine", "/pfx", "/g", "/g/app.exe"])
    );
    assert_eq!(q[29], "/r/ge/lib");
    assert_eq!(q[36], "/r/ge/files/lib64/gstreamer-1.0");
}

#[test]
fn path_settings_outside_the_sandbox_home_are_handed_in_as_configured() {
    let ctx = context("", &[("WINEPREFIX", "~/prefixes/game")]);
    let mut linked = dir("/home/u/prefixes/game");
    linked.absolute = s("/srv/real/game");
    let host = HostSnapshot { records: vec![linked] };
    let t = target(virtual_command("cmd"), &[], &[]);
    let args = assemble_bubblewrap_arguments(&ctx, &t, &Vec::new(), &Vec::new(), &None, &host).unwrap();
    let k = args.iter().position(|a| a == "WINEPREFIX").unwrap();
    assert_eq!(args[k - 1], "--setenv");
    assert_eq!(args[k + 1], "/home/u/prefixes/game");
}
