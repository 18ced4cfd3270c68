use bwrap_winer::file_system_utilities::{
    absolute_path_from_observations, calculate_fnv1a_64_bit_hash_of_string, generate_slug_from_absolute_filesystem_path,
    get_unique_non_system_parent_paths, identity_token_of_path, is_linux_elf_magic, resolve_tilde_in_path,
    resolve_wine_runner_root_directory_from_binary_path, reverse_strings, sandbox_home_mount_point_directory,
};
use bwrap_winer::host_path::{join_path, path_is_absolute};

fn s(x: &str) -> String {
    x.to_string()
}

#[test]
fn fnv_fingerprint_of_known_strings() {
    assert_eq!(calculate_fnv1a_64_bit_hash_of_string(""), "cbf29ce");
    assert_eq!(calculate_fnv1a_64_bit_hash_of_string("a"), "af63dc4");
    assert_eq!(calculate_fnv1a_64_bit_hash_of_string("/home/u/games/app.exe"), "5ec8f94");
    assert_eq!(calculate_fnv1a_64_bit_hash_of_string("/data/prefix"), "67c42bb");
}

#[test]
fn fingerprint_is_seven_lowercase_hex_digits() {
    for input in ["", "x", "/some/long/path/with spaces/and-ÜNICODE/游戏.exe"] {
        let f = calculate_fnv1a_64_bit_hash_of_string(input);
        assert_eq!(f.chars().count(), 7);
        assert!(f.chars().all(|c| c.is_ascii_digit() || ('a'..='f').contains(&c)));
    }
}

#[test]
fn slug_drops_exe_and_dashes_other_characters() {
    assert_eq!(generate_slug_from_absolute_filesystem_path("/home/u/My Game/Setup v1.2.EXE"), "Setup-v1-2");
    assert_eq!(generate_slug_from_absolute_filesystem_path("/home/u/games/app.exe"), "app");
    assert_eq!(generate_slug_from_absolute_filesystem_path("/data/prefix"), "prefix");
}

#[test]
fn slug_collapses_and_trims_dashes() {
    assert_eq!(generate_slug_from_absolute_filesystem_path("/x/--weird__name--.exe"), "weird-name");
    assert_eq!(generate_slug_from_absolute_filesystem_path("/x/a - b"), "a-b");
}

#[test]
fn slug_of_root_and_unicode() {
    assert_eq!(generate_slug_from_absolute_filesystem_path("/"), "sandbox");
    assert_eq!(generate_slug_from_absolute_filesystem_path("/games/游戏.exe"), "游戏");
    assert_eq!(generate_slug_from_absolute_filesystem_path("/games/.exe"), "");
}

#[test]
fn slug_is_clean_for_awkward_names() {
    for p in ["/x/-a--b-", "/x/!!!", "/x/a.b.c.exe", "/x/__init__", "/x/ spaced out .exe"] {
        let slug = generate_slug_from_absolute_filesystem_path(p);
        assert!(!slug.contains("--"), "{}", slug);
        assert!(!slug.starts_with('-'), "{}", slug);
        assert!(!slug.ends_with('-'), "{}", slug);
    }
}

#[test]
fn identity_token_is_slug_dash_fingerprint() {
    assert_eq!(identity_token_of_path("/home/u/games/app.exe"), "app-5ec8f94");
    assert_eq!(identity_token_of_path("/data/prefix"), "prefix-67c42bb");
}

#[test]
fn tilde_paths() {
    assert_eq!(resolve_tilde_in_path("~/games/a.exe", Some(s("/home/u"))), "/home/u/games/a.exe");
    assert_eq!(resolve_tilde_in_path("~", Some(s("/home/u"))), "/home/u");
    assert_eq!(resolve_tilde_in_path("~other/a", Some(s("/home/u"))), "~other/a");
    assert_eq!(resolve_tilde_in_path("/abs/~/a", Some(s("/home/u"))), "/abs/~/a");
    assert_eq!(resolve_tilde_in_path("~/a", None), "~/a");
}

#[test]
fn absolute_paths_from_observations() {
    assert_eq!(absolute_path_from_observations("rel/x", None, Some(s("/cwd"))), "/cwd/rel/x");
    assert_eq!(absolute_path_from_observations("rel/x", Some(s("/real/x")), Some(s("/cwd"))), "/real/x");
    assert_eq!(absolute_path_from_observations("/abs/x", None, Some(s("/cwd"))), "/abs/x");
    assert_eq!(absolute_path_from_observations("rel", None, None), "rel");
    assert!(path_is_absolute("/a"));
    assert!(!path_is_absolute("a/b"));
}

#[test]
fn elf_magic() {
    assert!(is_linux_elf_magic([0x7f, b'E', b'L', b'F']));
    assert!(!is_linux_elf_magic([b'M', b'Z', 0x90, 0x00]));
    assert!(!is_linux_elf_magic([0x7f, b'E', b'L', b'G']));
}

#[test]
fn parents_of_a_file_destination() {
    assert_eq!(
        get_unique_non_system_parent_paths("/home/u/games/app.exe", false),
        vec![s("/home"), s("/home/u"), s("/home/u/games")]
    );
}

#[test]
fn parents_of_a_directory_destination() {
    assert_eq!(
        get_unique_non_system_parent_paths("/home/u/games", true),
        vec![s("/home"), s("/home/u"), s("/home/u/games")]
    );
}

#[test]
fn parents_skip_system_directories() {
    assert_eq!(get_unique_non_system_parent_paths("/usr/share/fonts", true), vec![s("/usr/share"), s("/usr/share/fonts")]);
    assert_eq!(get_unique_non_system_parent_paths("/RUN/user/1000/bus", false), vec![s("/RUN/user"), s("/RUN/user/1000")]);
    assert_eq!(get_unique_non_system_parent_paths("/tmp/.X11-unix", true), vec![s("/tmp/.X11-unix")]);
    assert_eq!(get_unique_non_system_parent_paths("/", true), Vec::<String>::new());
    assert_eq!(get_unique_non_system_parent_paths("/a", false), Vec::<String>::new());
}

#[test]
fn reversing_strings() {
    assert_eq!(reverse_strings(vec![s("a"), s("b"), s("c")]), vec![s("c"), s("b"), s("a")]);
    assert_eq!(reverse_strings(Vec::new()), Vec::<String>::new());
}

#[test]
fn runner_root_of_standard_wine_layout() {
    assert_eq!(
        resolve_wine_runner_root_directory_from_binary_path("/home/u/runners/wine-ge/bin/wine"),
        Some(s("/home/u/runners/wine-ge"))
    );
    assert_eq!(
        resolve_wine_runner_root_directory_from_binary_path("/home/u/runners/wine-ge/BIN64/wine64"),
        Some(s("/home/u/runners/wine-ge"))
    );
}

#[test]
fn runner_root_of_proton_layout() {
    assert_eq!(
        resolve_wine_runner_root_directory_from_binary_path("/home/u/proton/files/bin/wine"),
        Some(s("/home/u/proton"))
    );
}

#[test]
fn runner_root_of_flat_layout_and_edges() {
    assert_eq!(resolve_wine_runner_root_directory_from_binary_path("/home/u/wine/wine"), Some(s("/home/u/wine")));
    assert_eq!(resolve_wine_runner_root_directory_from_binary_path("/wine"), None);
    assert_eq!(resolve_wine_runner_root_directory_from_binary_path("wine"), None);
}

#[test]
fn mount_points_in_the_sandbox_home() {
    assert_eq!(
        sandbox_home_mount_point_directory("/home/u/.local/share/fonts", "/home/u", "/sb/home", false, false),
        Some(s("/sb/home/.local/share/fonts"))
    );
    assert_eq!(
        sandbox_home_mount_point_directory("/home/u/games", "/home/u", "/sb/home", true, true),
        Some(s("/sb/home/games"))
    );
    assert_eq!(
        sandbox_home_mount_point_directory("/home/u/games/save.dat", "/home/u", "/sb/home", true, false),
        Some(s("/sb/home/games"))
    );
    assert_eq!(sandbox_home_mount_point_directory("/opt/game", "/home/u", "/sb/home", true, true), None);
}

#[test]
fn slug_and_identity_are_single_path_components() {
    for p in ["/x/a/b.exe", "/", "/x/a:b", "/x/üml/ÄÖ", "/x/a\\b"] {
        assert!(!generate_slug_from_absolute_filesystem_path(p).contains('/'));
        assert!(!identity_token_of_path(p).contains('/'));
    }
}

#[test]
fn absolute_form_is_stable() {
    let once = absolute_path_from_observations("rel/x", None, Some(s("/cwd")));
    assert_eq!(absolute_path_from_observations(&once, None, Some(s("/cwd"))), once);
    let once = absolute_path_from_observations("link", Some(s("/real/target")), Some(s("/cwd")));
    assert_eq!(absolute_path_from_observations(&once, Some(s("/real/target")), Some(s("/cwd"))), once);
}

#[test]
fn parents_are_nested_outermost_first() {
    let v = get_unique_non_system_parent_paths("/home/u/a/b/c/file.txt", false);
    assert_eq!(v, vec![s("/home"), s("/home/u"), s("/home/u/a"), s("/home/u/a/b"), s("/home/u/a/b/c")]);
    for w in v.windows(2) {
        assert!(w[1].starts_with(&w[0]) && w[1].len() > w[0].len());
    }
}

#[test]
fn joining_paths() {
    assert_eq!(join_path("/a", "b"), "/a/b");
    assert_eq!(join_path("/a/", "b"), "/a/b");
    assert_eq!(join_path("/a", "/b"), "/b");
    assert_eq!(join_path("", "b"), "b");
    assert_eq!(join_path("a", ""), "a/");
    assert_eq!(join_path("/a", "b/c"), std::path::Path::new("/a").join("b/c").to_string_lossy());
}
