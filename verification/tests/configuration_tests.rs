use bwrap_winer::configuration_management::{
    configuration_file_paths, load_configuration_hierarchy, parse_simple_flat_toml_content,
    resolve_configuration_value_from_hierarchical_sources, resolve_host_environment_base_paths,
    resolve_sandbox_data_root_directory,
};
use bwrap_winer::core_data_structures::{ConfigurationLayer, ConfigurationPyramid};
use bwrap_winer::file_system_utilities::expand_tilde_in_configuration_value;

fn s(x: &str) -> String {
    x.to_string()
}

fn env(pairs: &[(&str, &str)]) -> Vec<(String, String)> {
    pairs.iter().map(|(k, v)| (s(k), s(v))).collect()
}

fn sorted(mut v: Vec<String>) -> Vec<String> {
    v.sort();
    v
}

#[test]
fn flat_file_reads_keys_and_values() {
    let layer = parse_simple_flat_toml_content(
        "# a comment\n; another comment\nwiner_net = 0\nWINER_EXE_ARGS = \"-fullscreen -nolog\" # trailing\nname='quoted' ; note\nnoequals\n\n   \n",
    );
    assert_eq!(layer.get("WINER_NET"), Some(s("0")));
    assert_eq!(layer.get("WINER_EXE_ARGS"), Some(s("-fullscreen -nolog")));
    assert_eq!(layer.get("NAME"), Some(s("quoted")));
    assert_eq!(layer.get("NOEQUALS"), None);
    assert_eq!(sorted(layer.keys()), vec![s("NAME"), s("WINER_EXE_ARGS"), s("WINER_NET")]);
}

#[test]
fn flat_file_splits_at_first_equals_sign() {
    let layer = parse_simple_flat_toml_content("WINER_BIND = /a=b:/c\n");
    assert_eq!(layer.get("WINER_BIND"), Some(s("/a=b:/c")));
}

#[test]
fn flat_file_later_line_wins() {
    let layer = parse_simple_flat_toml_content("WINER_NET = 1\nwiner_net = 0\n");
    assert_eq!(layer.get("WINER_NET"), Some(s("0")));
    assert_eq!(layer.keys().len(), 1);
}

#[test]
fn flat_file_comment_lines_define_nothing() {
    let layer = parse_simple_flat_toml_content("  # WINER_NET = 0\n ; WINER_IPC = 0\n");
    assert_eq!(layer.keys().len(), 0);
    assert!(!layer.contains_key("WINER_NET"));
}

#[test]
fn layer_insert_and_get() {
    let mut layer = ConfigurationLayer::new();
    assert_eq!(layer.get("A"), None);
    layer.insert(s("A"), s("1"));
    layer.insert(s("B"), s("2"));
    layer.insert(s("A"), s("3"));
    assert_eq!(layer.get("A"), Some(s("3")));
    assert_eq!(layer.get("B"), Some(s("2")));
    assert!(layer.contains_key("B"));
    assert_eq!(sorted(layer.keys()), vec![s("A"), s("B")]);
}

fn sample_pyramid(environment: &[(&str, &str)]) -> ConfigurationPyramid {
    load_configuration_hierarchy(
        "WINER_NET = global\nGLOBAL_ONLY = g\nWINEPREFIX = ~/prefix\nHOME_ONLY = ~\nOTHER_USER = ~other/x\n",
        "WINER_NET = user\nUSER_ONLY = u\nSHARED = user\n",
        "WINER_NET = local\nSHARED = local\n",
        &env(environment),
        Some(s("/home/u")),
    )
}

#[test]
fn pyramid_priority_environment_first() {
    let p = sample_pyramid(&[("WINER_NET", "env"), ("PATH", "/bin")]);
    assert_eq!(p.resolve_configuration_value("WINER_NET", "default"), "env");
}

#[test]
fn pyramid_priority_local_user_global_default() {
    let p = sample_pyramid(&[]);
    assert_eq!(p.resolve_configuration_value("WINER_NET", "default"), "local");
    assert_eq!(p.resolve_configuration_value("SHARED", "default"), "local");
    assert_eq!(p.resolve_configuration_value("USER_ONLY", "default"), "u");
    assert_eq!(p.resolve_configuration_value("GLOBAL_ONLY", "default"), "g");
    assert_eq!(p.resolve_configuration_value("MISSING", "default"), "default");
}

#[test]
fn pyramid_environment_layer_takes_only_winer_keys_and_wineprefix() {
    let p = sample_pyramid(&[("PATH", "/bin"), ("WINEPREFIX", "/data/prefix"), ("WINER_ID", "app")]);
    assert_eq!(p.resolve_configuration_value("PATH", "none"), "none");
    assert_eq!(p.resolve_configuration_value("WINEPREFIX", ""), "/data/prefix");
    assert_eq!(p.resolve_configuration_value("WINER_ID", ""), "app");
}

#[test]
fn pyramid_expands_tilde() {
    let p = sample_pyramid(&[]);
    assert_eq!(p.resolve_configuration_value("WINEPREFIX", ""), "/home/u/prefix");
    assert_eq!(p.resolve_configuration_value("HOME_ONLY", ""), "/home/u");
    assert_eq!(p.resolve_configuration_value("OTHER_USER", ""), "~other/x");
    assert_eq!(p.resolve_configuration_value("MISSING", "~/fallback"), "/home/u/fallback");
}

#[test]
fn pyramid_lists_every_key_once() {
    let p = sample_pyramid(&[("WINER_NET", "env"), ("WINER_ID", "app"), ("PATH", "/bin")]);
    let all = sorted(p.get_all_configuration_keys());
    assert_eq!(
        all,
        vec![
            s("GLOBAL_ONLY"),
            s("HOME_ONLY"),
            s("OTHER_USER"),
            s("SHARED"),
            s("USER_ONLY"),
            s("WINEPREFIX"),
            s("WINER_ID"),
            s("WINER_NET"),
        ]
    );
    let files = sorted(p.file_configuration_keys());
    assert_eq!(
        files,
        vec![s("GLOBAL_ONLY"), s("HOME_ONLY"), s("OTHER_USER"), s("SHARED"), s("USER_ONLY"), s("WINEPREFIX"), s("WINER_NET")]
    );
}

#[test]
fn pyramid_new_from_layers() {
    let mut global = ConfigurationLayer::new();
    global.insert(s("WINER_DEV"), s("0"));
    let p = ConfigurationPyramid::new(global, ConfigurationLayer::new(), ConfigurationLayer::new(), &env(&[]), None);
    assert_eq!(p.resolve_configuration_value("WINER_DEV", "1"), "0");
    assert_eq!(p.resolve_configuration_value("WINEPREFIX", "~/x"), "~/x");
}

#[test]
fn hierarchical_sources_cascade() {
    let local = parse_simple_flat_toml_content("A = local\n");
    let user = parse_simple_flat_toml_content("A = user\nB = user\n");
    let global = parse_simple_flat_toml_content("A = global\nB = global\nC = ~/global\n");
    let home = Some(s("/home/u"));
    let r = |key: &str, env_value: Option<&str>| {
        resolve_configuration_value_from_hierarchical_sources(
            key,
            &local,
            &user,
            &global,
            "dflt",
            env_value.map(s),
            home.clone(),
        )
    };
    assert_eq!(r("A", Some("env")), "env");
    assert_eq!(r("A", None), "local");
    assert_eq!(r("B", None), "user");
    assert_eq!(r("C", None), "/home/u/global");
    assert_eq!(r("D", None), "dflt");
}

#[test]
fn tilde_expansion_of_values() {
    assert_eq!(expand_tilde_in_configuration_value(s("~"), Some(s("/home/u"))), "/home/u");
    assert_eq!(expand_tilde_in_configuration_value(s("~/a/b"), Some(s("/home/u"))), "/home/u/a/b");
    assert_eq!(expand_tilde_in_configuration_value(s("~a"), Some(s("/home/u"))), "~a");
    assert_eq!(expand_tilde_in_configuration_value(s("/x/~"), Some(s("/home/u"))), "/x/~");
    assert_eq!(expand_tilde_in_configuration_value(s("~/a"), None), "~/a");
}

#[test]
fn host_base_paths() {
    let (home, user, root) = resolve_host_environment_base_paths("/home/u", None, None);
    assert_eq!(home, "/home/u");
    assert_eq!(user, "wineruser");
    assert_eq!(root, "/home/u/.config/bwrap-winer");
    let (_, user, root) = resolve_host_environment_base_paths("/home/u", Some(s("alice")), Some(s("/xdg")));
    assert_eq!(user, "alice");
    assert_eq!(root, "/xdg/bwrap-winer");
}

#[test]
fn sandbox_data_root_cascade() {
    let empty = ConfigurationLayer::new();
    assert_eq!(
        resolve_sandbox_data_root_directory("/home/u", &empty, None, None),
        "/home/u/.local/share/bwrap-winer/sandboxes"
    );
    assert_eq!(
        resolve_sandbox_data_root_directory("/home/u", &empty, Some(s("/xdg/data")), None),
        "/xdg/data/bwrap-winer/sandboxes"
    );
    let global = parse_simple_flat_toml_content("WINER_DATA_ROOT = /srv/sandboxes\n");
    assert_eq!(resolve_sandbox_data_root_directory("/home/u", &global, None, None), "/srv/sandboxes");
    assert_eq!(
        resolve_sandbox_data_root_directory("/home/u", &global, None, Some(s("~/boxes"))),
        "/home/u/boxes"
    );
}

#[test]
fn configuration_files_of_a_sandbox() {
    let (global, user, local) = configuration_file_paths("/home/u/.config/bwrap-winer", "/srv/boxes", "app-1234567");
    assert_eq!(global, "/home/u/.config/bwrap-winer/config.toml");
    assert_eq!(user, "/home/u/.config/bwrap-winer/IDs/app-1234567.toml");
    assert_eq!(local, "/srv/boxes/app-1234567/winer_meta.toml");
}

#[test]
fn keys_are_case_insensitive() {
    let lower = parse_simple_flat_toml_content("winer_net = 0\n");
    let upper = parse_simple_flat_toml_content("WINER_NET = 0\n");
    let mixed = parse_simple_flat_toml_content("Winer_Net = 0\n");
    assert_eq!(lower.keys(), upper.keys());
    assert_eq!(mixed.keys(), upper.keys());
    assert_eq!(lower.get("WINER_NET"), Some(s("0")));
}
