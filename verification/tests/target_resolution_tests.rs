use bwrap_winer::configuration_management::{load_configuration_hierarchy, parse_simple_flat_toml_content};
use bwrap_winer::core_data_structures::{ConfigurationLayer, ConfigurationPyramid, SandboxContext, TargetCategory, TargetSpecification};
use bwrap_winer::host_snapshot::{HostEnvironment, HostPathRecord, HostSnapshot};
use bwrap_winer::target_resolution_engine::{
    disambiguate_target_intent_and_build_specification, inject_virtual_desktop_prefix_if_configured_and_safe,
    parse_target_executable_and_remaining_arguments_from_cli, probe_candidate_names_of, probe_host_physical_entity,
    probe_with_directories, profile_target_configuration_bypassed, resolve_engine_binary_path, resolve_sandbox_identity,
    resolve_target_executable_and_validate_via_multi_arg_scanner, sandbox_identity_host_queries,
    scan_and_collect_physical_entities_and_prefixes, search_directories_of, target_resolution_host_queries,
    IntermediateScannedArgumentsCollection, TargetResolutionError,
};

fn s(x: &str) -> String {
    x.to_string()
}

fn strings(v: &[&str]) -> Vec<String> {
    v.iter().map(|x| s(x)).collect()
}

fn file(path: &str) -> HostPathRecord {
    HostPathRecord {
        path: s(path),
        absolute: s(path),
        exists: true,
        is_file: true,
        is_directory: false,
        canonical: Some(s(path)),
        is_linux_elf: false,
    }
}

fn bare_environment() -> HostEnvironment {
    HostEnvironment { home: Some(s("/home/u")), search_path: None, current_directory: None, xdg_runtime_dir: None, wayland_display: None }
}

fn pyramid(environment: &[(&str, &str)]) -> ConfigurationPyramid {
    let vars: Vec<(String, String)> = environment.iter().map(|(k, v)| (s(k), s(v))).collect();
    load_configuration_hierarchy("", "", "", &vars, Some(s("/home/u")))
}

fn context(environment: &[(&str, &str)]) -> SandboxContext {
    SandboxContext::new(s("app"), s("/home/u"), s("u"), "/data", pyramid(environment))
}

fn resolve(args: &[&str], environment: &[(&str, &str)], cli_wine: Option<&str>, host: &HostSnapshot) -> Result<TargetSpecification, TargetResolutionError> {
    resolve_target_executable_and_validate_via_multi_arg_scanner(
        strings(args),
        &context(environment),
        &cli_wine.map(s),
        &bare_environment(),
        host,
    )
}

fn empty_collection() -> IntermediateScannedArgumentsCollection {
    IntermediateScannedArgumentsCollection {
        option_representing_primary_target_raw_input: None,
        option_representing_absolute_path_to_primary_target_executable: None,
        vector_of_strings_representing_launcher_prefix_commands: Vec::new(),
        vector_of_path_bufs_representing_secondary_penetration_mount_sources: Vec::new(),
        vector_of_strings_representing_remaining_cli_arguments: Vec::new(),
        boolean_flag_indicating_primary_target_found: false,
    }
}

#[test]
fn cli_splits_off_a_wine_binary() {
    let (wine, rest) = parse_target_executable_and_remaining_arguments_from_cli(&strings(&["wine", "app.exe", "-x"]));
    assert_eq!(wine, Some(s("wine")));
    assert_eq!(rest, strings(&["app.exe", "-x"]));
    let (wine, rest) = parse_target_executable_and_remaining_arguments_from_cli(&strings(&["/opt/ge/bin/WINE64", "a.exe"]));
    assert_eq!(wine, Some(s("/opt/ge/bin/WINE64")));
    assert_eq!(rest, strings(&["a.exe"]));
}

#[test]
fn cli_without_wine_binary_is_all_target() {
    let (wine, rest) = parse_target_executable_and_remaining_arguments_from_cli(&strings(&["wine"]));
    assert_eq!(wine, None);
    assert_eq!(rest, strings(&["wine"]));
    let (wine, rest) = parse_target_executable_and_remaining_arguments_from_cli(&strings(&["winecfg", "x"]));
    assert_eq!(wine, None);
    assert_eq!(rest, strings(&["winecfg", "x"]));
    let (wine, rest) = parse_target_executable_and_remaining_arguments_from_cli(&strings(&["/opt/mywine", "x"]));
    assert_eq!(wine, None);
    assert_eq!(rest, strings(&["/opt/mywine", "x"]));
    let (wine, rest) = parse_target_executable_and_remaining_arguments_from_cli(&[]);
    assert_eq!(wine, None);
    assert!(rest.is_empty());
}

#[test]
fn probe_candidates() {
    assert_eq!(probe_candidate_names_of("game"), strings(&["game", "game.exe"]));
    assert_eq!(probe_candidate_names_of("Setup.MSI"), strings(&["Setup.MSI"]));
    assert_eq!(probe_candidate_names_of("run.Bat"), strings(&["run.Bat"]));
}

#[test]
fn search_directories_order() {
    let env = HostEnvironment {
        home: None,
        search_path: Some(s("/usr/bin:/bin")),
        current_directory: Some(s("/cwd")),
        xdg_runtime_dir: None,
        wayland_display: None,
    };
    assert_eq!(search_directories_of(Some(s("/opt/wine/bin")), &env), strings(&["/opt/wine/bin", "/usr/bin", "/bin", "/cwd"]));
    assert_eq!(search_directories_of(None, &bare_environment()), Vec::<String>::new());
}

#[test]
fn probing_finds_files() {
    let host = HostSnapshot { records: vec![file("/g/game.exe"), file("/abs/tool.exe")] };
    assert_eq!(probe_with_directories("game", &strings(&["/x", "/g"]), &host), Some(s("/g/game.exe")));
    assert_eq!(probe_with_directories("/abs/tool.exe", &Vec::new(), &host), Some(s("/abs/tool.exe")));
    assert_eq!(probe_with_directories("/abs/tool", &Vec::new(), &host), Some(s("/abs/tool.exe")));
    assert_eq!(probe_with_directories("nothing", &strings(&["/g"]), &host), None);
    let env = HostEnvironment { home: None, search_path: Some(s("/g")), current_directory: None, xdg_runtime_dir: None, wayland_display: None };
    assert_eq!(probe_host_physical_entity("game", None, &env, &host), Some(s("/g/game.exe")));
}

#[test]
fn probing_ignores_directories() {
    let mut dir = file("/g/game.exe");
    dir.is_file = false;
    dir.is_directory = true;
    let host = HostSnapshot { records: vec![dir] };
    assert_eq!(probe_with_directories("/g/game.exe", &Vec::new(), &host), None);
}

#[test]
fn engine_binary_is_found_along_path() {
    let env = HostEnvironment { home: None, search_path: Some(s("/usr/bin")), current_directory: None, xdg_runtime_dir: None, wayland_display: None };
    let host = HostSnapshot { records: vec![file("/usr/bin/wine")] };
    assert_eq!(resolve_engine_binary_path("wine", &env, &host), "/usr/bin/wine");
    assert_eq!(resolve_engine_binary_path("/opt/x/wine", &env, &host), "/opt/x/wine");
    assert_eq!(resolve_engine_binary_path("wine", &bare_environment(), &HostSnapshot::new()), "wine");
}

#[test]
fn resolution_of_a_windows_program() {
    let host = HostSnapshot { records: vec![file("/g/game.exe"), file("/g/save.dat")] };
    let t = resolve(&["explorer", "/g/game.exe", "-opt", "/g/save.dat"], &[], None, &host).unwrap();
    assert_eq!(t.string_representing_raw_user_input_target, "/g/game.exe");
    assert_eq!(t.option_representing_absolute_path_to_primary_target_executable, Some(s("/g/game.exe")));
    assert_eq!(t.vector_of_strings_representing_launcher_prefix_commands, strings(&["explorer"]));
    assert_eq!(t.vector_of_path_bufs_representing_secondary_penetration_mount_sources, strings(&["/g"]));
    assert_eq!(t.vector_of_strings_representing_remaining_cli_arguments, strings(&["-opt", "/g/save.dat"]));
    assert!(matches!(&t.target_category_enum_representing_execution_type,
        TargetCategory::PhysicalWindowsExecutable { path_buf_representing_host_absolute_path } if path_buf_representing_host_absolute_path == "/g/game.exe"));
}

#[test]
fn resolution_puts_a_virtual_desktop_in_front() {
    let host = HostSnapshot { records: vec![file("/g/game.exe")] };
    let t = resolve(&["/g/game.exe", "-a"], &[("WINER_DESKTOP", "1280x720")], None, &host).unwrap();
    assert_eq!(t.vector_of_strings_representing_launcher_prefix_commands, strings(&["explorer", "/desktop=sandbox,1280x720"]));
    let t = resolve(&["Explorer.EXE", "/g/game.exe"], &[("WINER_DESKTOP", "1280x720")], None, &host).unwrap();
    assert_eq!(t.vector_of_strings_representing_launcher_prefix_commands, strings(&["Explorer.EXE"]));
}

#[test]
fn desktop_injection_happens_once() {
    let p = pyramid(&[("WINER_DESKTOP", "800x600")]);
    let mut c = empty_collection();
    inject_virtual_desktop_prefix_if_configured_and_safe(&mut c, &p);
    assert_eq!(c.vector_of_strings_representing_launcher_prefix_commands, strings(&["explorer", "/desktop=sandbox,800x600"]));
    inject_virtual_desktop_prefix_if_configured_and_safe(&mut c, &p);
    assert_eq!(c.vector_of_strings_representing_launcher_prefix_commands, strings(&["explorer", "/desktop=sandbox,800x600"]));
    let mut d = empty_collection();
    inject_virtual_desktop_prefix_if_configured_and_safe(&mut d, &pyramid(&[]));
    assert!(d.vector_of_strings_representing_launcher_prefix_commands.is_empty());
}

#[test]
fn resolution_refuses_a_linux_program() {
    let mut elf = file("/g/game.exe");
    elf.is_linux_elf = true;
    let host = HostSnapshot { records: vec![elf] };
    match resolve(&["/g/game.exe"], &[], None, &host) {
        Err(TargetResolutionError::NativeLinuxExecutable { path }) => assert_eq!(path, "/g/game.exe"),
        _ => panic!("a native program must be refused"),
    }
}

#[test]
fn resolution_of_a_wine_multicall_tool() {
    let mut tool = file("/opt/wine/bin/winecfg");
    tool.canonical = Some(s("/opt/wine/bin/wine"));
    let host = HostSnapshot { records: vec![tool, file("/opt/wine/bin/wine")] };
    let t = resolve(&["winecfg", "-v"], &[], Some("/opt/wine/bin/wine"), &host).unwrap();
    assert!(matches!(&t.target_category_enum_representing_execution_type,
        TargetCategory::WineMulticallTool { string_representing_subcommand_name } if string_representing_subcommand_name == "winecfg"));
    assert_eq!(t.option_representing_absolute_path_to_primary_target_executable, None);
    assert_eq!(t.vector_of_strings_representing_remaining_cli_arguments, strings(&["-v"]));
}

#[test]
fn resolution_of_a_virtual_command() {
    let t = resolve(&["cmd", "/c", "dir"], &[], None, &HostSnapshot::new()).unwrap();
    assert!(matches!(&t.target_category_enum_representing_execution_type,
        TargetCategory::VirtualWineCommand { string_representing_command_name } if string_representing_command_name == "cmd"));
    assert_eq!(t.string_representing_raw_user_input_target, "cmd");
    assert!(t.vector_of_strings_representing_launcher_prefix_commands.is_empty());
    assert_eq!(t.vector_of_strings_representing_remaining_cli_arguments, strings(&["/c", "dir"]));
}

#[test]
fn resolution_without_any_target() {
    assert!(matches!(resolve(&[], &[], None, &HostSnapshot::new()), Err(TargetResolutionError::MissingProfileTarget)));
    assert!(matches!(
        resolve(&[], &[("WINER_EXE_PATH", "/nope.exe")], None, &HostSnapshot::new()),
        Err(TargetResolutionError::NoTargetCommand)
    ));
}

#[test]
fn resolution_from_the_profile() {
    let host = HostSnapshot { records: vec![file("/g/game.exe"), file("/p/patch.exe")] };
    let t = resolve(
        &[],
        &[("WINER_EXE_PATH", "/g/game.exe"), ("WINER_EXE_ARGS", " -a  -b "), ("WINER_EXE_PRE", "/p/patch.exe --quiet")],
        None,
        &host,
    )
    .unwrap();
    assert_eq!(t.vector_of_strings_representing_launcher_prefix_commands, strings(&["/p/patch.exe", "--quiet"]));
    assert_eq!(t.vector_of_path_bufs_representing_secondary_penetration_mount_sources, strings(&["/p"]));
    assert_eq!(t.vector_of_strings_representing_remaining_cli_arguments, strings(&["-a", "-b"]));
}

#[test]
fn scan_keeps_every_argument_in_order() {
    let host = HostSnapshot { records: vec![file("/g/game.exe")] };
    let args = strings(&["taskset", "-c", "/g/game.exe", "--", "x"]);
    let c = scan_and_collect_physical_entities_and_prefixes(args.clone(), &pyramid(&[]), &Vec::new(), &host).unwrap();
    let mut back = c.vector_of_strings_representing_launcher_prefix_commands.clone();
    back.push(c.option_representing_primary_target_raw_input.clone().unwrap());
    back.extend(c.vector_of_strings_representing_remaining_cli_arguments.clone());
    assert_eq!(back, args);
    assert!(c.boolean_flag_indicating_primary_target_found);
}

#[test]
fn settling_with_nothing_found_and_no_prefix() {
    let r = disambiguate_target_intent_and_build_specification(empty_collection(), "wine", &HostSnapshot::new());
    assert!(matches!(r, Err(TargetResolutionError::NoTargetCommand)));
}

#[test]
fn profile_is_bypassed_by_arguments() {
    let p = pyramid(&[("WINER_EXE_PATH", "/g/game.exe")]);
    assert!(profile_target_configuration_bypassed(&strings(&["x.exe"]), &p));
    assert!(!profile_target_configuration_bypassed(&Vec::new(), &p));
    assert!(!profile_target_configuration_bypassed(&strings(&["x.exe"]), &pyramid(&[])));
}

#[test]
fn resolution_queries_cover_the_engine_and_targets() {
    let q = target_resolution_host_queries(&strings(&["/g/game.exe"]), &context(&[]), &Some(s("/opt/w/bin/wine")), &bare_environment(), &HostSnapshot::new());
    assert_eq!(q, strings(&["/opt/w/bin/wine", "/opt/w/bin/wine", "/g/game.exe"]));
}

#[test]
fn identity_from_the_environment_or_global_configuration() {
    let empty = ConfigurationLayer::new();
    let host = HostSnapshot::new();
    assert_eq!(resolve_sandbox_identity(&Vec::new(), Some(s("myapp")), &empty, &Vec::new(), None, &host), Some(s("myapp")));
    let global = parse_simple_flat_toml_content("WINER_ID = fromfile\n");
    assert_eq!(resolve_sandbox_identity(&strings(&["x"]), None, &global, &Vec::new(), None, &host), Some(s("fromfile")));
}

#[test]
fn identity_from_the_wine_prefix() {
    let empty = ConfigurationLayer::new();
    let vars = vec![(s("WINEPREFIX"), s("/data/prefix"))];
    assert_eq!(
        resolve_sandbox_identity(&strings(&["/home/u/games/app.exe"]), None, &empty, &vars, None, &HostSnapshot::new()),
        Some(s("prefix-67c42bb"))
    );
}

#[test]
fn identity_from_the_first_argument() {
    let empty = ConfigurationLayer::new();
    let host = HostSnapshot { records: vec![file("/home/u/games/app.exe")] };
    assert_eq!(
        resolve_sandbox_identity(&strings(&["/home/u/games/app.exe", "-x"]), None, &empty, &Vec::new(), None, &host),
        Some(s("app-5ec8f94"))
    );
    assert_eq!(
        resolve_sandbox_identity(&strings(&["/home/u/games/app"]), None, &empty, &Vec::new(), None, &host),
        Some(s("app-5ec8f94"))
    );
    assert_eq!(resolve_sandbox_identity(&Vec::new(), None, &empty, &Vec::new(), None, &host), None);
    assert_eq!(
        sandbox_identity_host_queries(&strings(&["/home/u/games/app"]), &empty, &Vec::new(), None),
        strings(&["", "/home/u/games/app", "/home/u/games/app.exe"])
    );
}
