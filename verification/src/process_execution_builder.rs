//! The command line of bubblewrap: what the sandbox sees, which
//! environment it gets, and the command that runs inside it.
use vstd::prelude::*;
use crate::core_data_structures::{
    extend_strings, mount_views, owned, string_views, CategoryModel, ConfigurationPyramid, MountModel,
    MountSpecification, SandboxContext, TargetCategory, TargetModel, TargetSpecification,
};
use crate::file_system_utilities::{resolve_wine_runner_root_directory_from_binary_path, runner_root_of};
use crate::host_path::{join_path, opt_view, parent_path, path_has_prefix, path_join, path_parent, path_starts_with, path_strip_prefix, strip_path_prefix};
use crate::host_snapshot::HostSnapshot;
use crate::sandbox_mount_pipeline::{is_custom_engine_path, is_custom_engine_path_exec};
use crate::text::{chars_of, concat_chars, starts_with, str_equal, string_from_chars};
use crate::target_resolution_engine::{custom_wine_binary, custom_wine_binary_of, push_string};

verus! {

// ==========================================
// Short-circuit commands
// ==========================================

/// Whether the help text is shown: for `-h` or `--help`, and for an empty
/// command line when neither `WINER_EXE_PATH` nor `WINER_ID` is set.
pub open spec fn help_requested(args: Seq<Seq<char>>, exe_path_set: bool, identifier_set: bool) -> bool {
    if args.len() == 0 || args[0] == "-h"@ || args[0] == "--help"@ {
        if !exe_path_set && !identifier_set {
            true
        } else {
            args.len() > 0 && (args[0] == "-h"@ || args[0] == "--help"@)
        }
    } else {
        false
    }
}

/// Whether the help text is shown.  `exe_path_set` and `identifier_set`
/// say whether `WINER_EXE_PATH` and `WINER_ID` are set in the environment.
pub fn is_help_requested(args: &Vec<String>, exe_path_set: bool, identifier_set: bool) -> (r: bool)
    ensures
        r == help_requested(string_views(args@), exe_path_set, identifier_set),
{
    let first_is_help = args.len() > 0 && (str_equal(args[0].as_str(), "-h") || str_equal(args[0].as_str(), "--help"));
    if args.len() == 0 || first_is_help {
        if !exe_path_set && !identifier_set {
            true
        } else {
            first_is_help
        }
    } else {
        false
    }
}

/// Whether the list of sandboxes is asked for (`--list` first).
pub open spec fn list_requested(args: Seq<Seq<char>>) -> bool {
    args.len() > 0 && args[0] == "--list"@
}

/// Whether the list of sandboxes is asked for.
pub fn is_list_requested(args: &Vec<String>) -> (r: bool)
    ensures
        r == list_requested(string_views(args@)),
{
    args.len() > 0 && str_equal(args[0].as_str(), "--list")
}

// ==========================================
// Argument segments
// ==========================================

/// `flag path path` for each path of `paths` that exists.
pub open spec fn bind_existing(flag: Seq<char>, paths: Seq<Seq<char>>, host: HostSnapshot) -> Seq<Seq<char>>
    decreases paths.len(),
{
    if paths.len() == 0 {
        Seq::empty()
    } else {
        let p = paths.last();
        bind_existing(flag, paths.drop_last(), host) + (if host.path_exists(p) {
            seq![flag, p, p]
        } else {
            Seq::<Seq<char>>::empty()
        })
    }
}

/// The system directories mounted read-only.
pub open spec fn core_system_paths() -> Seq<Seq<char>> {
    seq!["/usr"@, "/etc"@, "/sys"@, "/proc"@]
}

/// The system directories mounted read-only when present.
pub open spec fn optional_system_paths() -> Seq<Seq<char>> {
    seq!["/bin"@, "/sbin"@, "/lib"@, "/lib64"@]
}

/// The NVIDIA device nodes passed through when present.
pub open spec fn nvidia_device_paths() -> Seq<Seq<char>> {
    seq![
        "/dev/nvidia0"@, "/dev/nvidia1"@, "/dev/nvidia2"@, "/dev/nvidia3"@, "/dev/nvidia4"@,
        "/dev/nvidia5"@, "/dev/nvidia6"@, "/dev/nvidia7"@, "/dev/nvidia8"@, "/dev/nvidia9"@,
        "/dev/nvidiactl"@, "/dev/nvidia-modeset"@, "/dev/nvidia-uvm"@, "/dev/nvidia-uvm-tools"@,
    ]
}

/// The system part: read-only system directories and the tmpfs mounts.
pub open spec fn system_segment(host: HostSnapshot) -> Seq<Seq<char>> {
    bind_existing("--ro-bind"@, core_system_paths(), host) + bind_existing("--ro-bind-try"@, optional_system_paths(), host)
        + seq!["--tmpfs"@, "/tmp"@, "--tmpfs"@, "/var"@, "--tmpfs"@, "/run"@]
}

/// The namespaces unshared: network when `WINER_NET` is `0`, PIDs when
/// `WINER_SHARE_PID` is `0`, IPC when `WINER_IPC` is `0`.
pub open spec fn namespace_segment(pyramid: ConfigurationPyramid) -> Seq<Seq<char>> {
    (if pyramid.resolved_value("WINER_NET"@, "1"@) == "0"@ { seq!["--unshare-net"@] } else { Seq::<Seq<char>>::empty() })
        + (if pyramid.resolved_value("WINER_SHARE_PID"@, "1"@) == "0"@ { seq!["--unshare-pid"@] } else { Seq::<Seq<char>>::empty() })
        + (if pyramid.resolved_value("WINER_IPC"@, "1"@) == "0"@ { seq!["--unshare-ipc"@] } else { Seq::<Seq<char>>::empty() })
}

/// The devices: all of `/dev` when `WINER_DEV` is `1`; otherwise a minimal
/// `/dev` with the DRI and NVIDIA nodes that exist.
pub open spec fn device_segment(pyramid: ConfigurationPyramid, host: HostSnapshot) -> Seq<Seq<char>> {
    if pyramid.resolved_value("WINER_DEV"@, "1"@) == "1"@ {
        bind_existing("--dev-bind"@, seq!["/dev"@], host)
    } else {
        seq!["--dev"@, "/dev"@] + bind_existing("--dev-bind"@, seq!["/dev/dri"@], host) + bind_existing(
            "--dev-bind"@,
            nvidia_device_paths(),
            host,
        )
    }
}

/// `--dir d` for each directory.
pub open spec fn directory_segment(dirs: Seq<Seq<char>>) -> Seq<Seq<char>>
    decreases dirs.len(),
{
    if dirs.len() == 0 {
        Seq::empty()
    } else {
        directory_segment(dirs.drop_last()) + seq!["--dir"@, dirs.last()]
    }
}

/// The sandbox home in place of the host home, with `HOME`, `USER` and
/// `LOGNAME` set.
pub open spec fn home_segment(context: SandboxContext) -> Seq<Seq<char>> {
    let home = context.path_buf_representing_host_home_directory@;
    let user = context.string_representing_host_username@;
    seq![
        "--bind"@, context.path_buf_representing_sandbox_home_directory@, home,
        "--setenv"@, "HOME"@, home,
        "--setenv"@, "USER"@, user,
        "--setenv"@, "LOGNAME"@, user,
    ]
}

/// `--ro-bind` or `--bind`, source, destination, for each mount.
pub open spec fn mount_segment(mounts: Seq<MountModel>) -> Seq<Seq<char>>
    decreases mounts.len(),
{
    if mounts.len() == 0 {
        Seq::empty()
    } else {
        let m = mounts.last();
        mount_segment(mounts.drop_last()) + seq![if m.readonly { "--ro-bind"@ } else { "--bind"@ }, m.source, m.destination]
    }
}

/// A host path as seen inside the sandbox: a path under the sandbox home
/// appears under the host home.
pub open spec fn in_container_path(p: Seq<char>, sandbox_home: Seq<char>, home: Seq<char>) -> Seq<char> {
    if path_starts_with(p, sandbox_home) {
        match path_strip_prefix(p, sandbox_home) {
            Some(rel) => path_join(home, rel),
            None => p,
        }
    } else {
        p
    }
}

/// Keys whose values always go through to the sandbox when set.
pub open spec fn is_always_forwarded_key(key: Seq<char>) -> bool {
    key == "WINEPREFIX"@ || key == "WINER_EXE_PATH"@
}

/// The keys whose values are handed into the sandbox, in order:
/// `WINEPREFIX`, `WINER_EXE_PATH`, then the other keys of the configuration
/// files as listed.
pub open spec fn forwarded_keys(file_keys: Seq<Seq<char>>) -> Seq<Seq<char>> {
    seq!["WINEPREFIX"@, "WINER_EXE_PATH"@] + file_keys.filter(|k: Seq<char>| !is_always_forwarded_key(k))
}

/// The value of a path setting as handed into the sandbox: when its
/// absolute form lies under the sandbox home it is rewritten to the same
/// place under the host home (where the sandbox home appears inside);
/// otherwise it is handed in as configured.
pub open spec fn forwarded_path_value(v: Seq<char>, sandbox_home: Seq<char>, home: Seq<char>, host: HostSnapshot) -> Seq<char> {
    let a = host.absolute(v);
    if path_starts_with(a, sandbox_home) {
        match path_strip_prefix(a, sandbox_home) {
            Some(rel) => path_join(home, rel),
            None => v,
        }
    } else {
        v
    }
}

/// `--setenv key value` for one key: keys that do not begin with `WINER_`,
/// and `WINER_EXE_PATH`, when their value is not empty; `WINEPREFIX` and
/// `WINER_EXE_PATH` are mapped into the sandbox when they point into the
/// sandbox home.
pub open spec fn setenv_for_key(key: Seq<char>, pyramid: ConfigurationPyramid, sandbox_home: Seq<char>, home: Seq<char>, host: HostSnapshot) -> Seq<Seq<char>> {
    if !starts_with(key, "WINER_"@) || key == "WINER_EXE_PATH"@ {
        let v = pyramid.resolved_value(key, ""@);
        if v.len() > 0 {
            let shown = if key == "WINEPREFIX"@ || key == "WINER_EXE_PATH"@ {
                forwarded_path_value(v, sandbox_home, home, host)
            } else {
                v
            };
            seq!["--setenv"@, key, shown]
        } else {
            Seq::empty()
        }
    } else {
        Seq::empty()
    }
}

/// The `--setenv` arguments for a list of keys.
pub open spec fn setenv_segment(keys: Seq<Seq<char>>, pyramid: ConfigurationPyramid, sandbox_home: Seq<char>, home: Seq<char>, host: HostSnapshot) -> Seq<Seq<char>>
    decreases keys.len(),
{
    if keys.len() == 0 {
        Seq::empty()
    } else {
        setenv_segment(keys.drop_last(), pyramid, sandbox_home, home, host) + setenv_for_key(keys.last(), pyramid, sandbox_home, home, host)
    }
}

/// The Wine binary run inside the sandbox: the command-line one made
/// absolute; else `WINER_WINE_PATH` made absolute, or plain `wine`.
pub open spec fn sandbox_wine_binary(pyramid: ConfigurationPyramid, cli_wine: Option<Seq<char>>, host: HostSnapshot) -> Seq<char> {
    match cli_wine {
        Some(c) => host.absolute(c),
        None => {
            let raw = pyramid.resolved_value("WINER_WINE_PATH"@, "wine"@);
            if raw == "wine"@ {
                raw
            } else {
                host.absolute(raw)
            }
        },
    }
}

/// The subdirectories of a runner that hold libraries.
pub open spec fn library_subdirectories() -> Seq<Seq<char>> {
    seq!["lib"@, "lib64"@, "files/lib"@, "files/lib64"@]
}

/// The subdirectories of a runner that hold GStreamer plugins.
pub open spec fn gstreamer_subdirectories() -> Seq<Seq<char>> {
    seq!["lib/gstreamer-1.0"@, "lib64/gstreamer-1.0"@, "files/lib/gstreamer-1.0"@, "files/lib64/gstreamer-1.0"@]
}

/// The existing directories `root/sub` for the given subdirectories.
pub open spec fn existing_subdirectories(root: Seq<char>, subs: Seq<Seq<char>>, host: HostSnapshot) -> Seq<Seq<char>>
    decreases subs.len(),
{
    if subs.len() == 0 {
        Seq::empty()
    } else {
        let p = path_join(root, subs.last());
        existing_subdirectories(root, subs.drop_last(), host) + (if host.path_exists(p) {
            seq![p]
        } else {
            Seq::<Seq<char>>::empty()
        })
    }
}

/// Strings joined with `:`.
pub open spec fn colon_joined(parts: Seq<Seq<char>>) -> Seq<char>
    decreases parts.len(),
{
    if parts.len() == 0 {
        Seq::empty()
    } else if parts.len() == 1 {
        parts[0]
    } else {
        colon_joined(parts.drop_last()) + ":"@ + parts.last()
    }
}

/// The root of a custom runner, when the Wine binary is one.
pub open spec fn sandbox_runner_root(wine: Seq<char>) -> Option<Seq<char>> {
    if is_custom_engine_path(wine) {
        runner_root_of(wine)
    } else {
        None
    }
}

/// The library environment: `LD_LIBRARY_PATH` from the runner's library
/// directories unless configured, and `GST_PLUGIN_PATH` (from the runner's
/// plugin directories, possibly empty) unless configured.
pub open spec fn library_segment(pyramid: ConfigurationPyramid, wine: Seq<char>, host: HostSnapshot) -> Seq<Seq<char>> {
    let ld_needed = pyramid.resolved_value("LD_LIBRARY_PATH"@, ""@).len() == 0;
    let gst_needed = pyramid.resolved_value("GST_PLUGIN_PATH"@, ""@).len() == 0;
    let ld = match sandbox_runner_root(wine) {
        Some(root) => {
            let libs = existing_subdirectories(root, library_subdirectories(), host);
            if ld_needed && libs.len() > 0 {
                seq!["--setenv"@, "LD_LIBRARY_PATH"@, colon_joined(libs)]
            } else {
                Seq::<Seq<char>>::empty()
            }
        },
        None => Seq::<Seq<char>>::empty(),
    };
    let gst_value = match sandbox_runner_root(wine) {
        Some(root) => colon_joined(existing_subdirectories(root, gstreamer_subdirectories(), host)),
        None => Seq::<char>::empty(),
    };
    ld + (if gst_needed {
        seq!["--setenv"@, "GST_PLUGIN_PATH"@, gst_value]
    } else {
        Seq::<Seq<char>>::empty()
    })
}

/// The working directory inside the sandbox: the directory of a Windows
/// program, else the home directory; made absolute and mapped into the
/// sandbox.
pub open spec fn working_directory(target: TargetModel, sandbox_home: Seq<char>, home: Seq<char>, host: HostSnapshot) -> Seq<char> {
    let dir = match target.category {
        CategoryModel::PhysicalWindowsExecutable(p) => match path_parent(p) {
            Some(d) => d,
            None => home,
        },
        _ => home,
    };
    in_container_path(host.absolute(dir), sandbox_home, home)
}

/// The command run inside the sandbox: `gamemoderun` when
/// `WINER_GAMEMODE` is `1`, the Wine binary, the prefixes, the target, and
/// then the target's arguments, untouched.  A blocked Linux target has no
/// command.
pub open spec fn inner_command(pyramid: ConfigurationPyramid, wine: Seq<char>, target: TargetModel, sandbox_home: Seq<char>, home: Seq<char>, host: HostSnapshot) -> Option<Seq<Seq<char>>> {
    let target_part = match target.category {
        CategoryModel::WineMulticallTool(n) => Some(seq![n]),
        CategoryModel::VirtualWineCommand(n) => Some(seq![n]),
        CategoryModel::PhysicalWindowsExecutable(p) => Some(seq![in_container_path(host.absolute(p), sandbox_home, home)]),
        CategoryModel::HostLinuxExecutableBlock => None,
    };
    match target_part {
        None => None,
        Some(t) => Some(
            (if pyramid.resolved_value("WINER_GAMEMODE"@, "0"@) == "1"@ { seq!["gamemoderun"@] } else { Seq::<Seq<char>>::empty() })
                + seq![wine] + target.prefixes + t + target.remaining,
        ),
    }
}

/// The whole bubblewrap argument list, or none for a blocked target.
/// `file_keys` are the keys of the three configuration files, each once, in
/// the order in which they are handed into the sandbox.
pub open spec fn bubblewrap_arguments(
    context: SandboxContext,
    target: TargetModel,
    dirs: Seq<Seq<char>>,
    mounts: Seq<MountModel>,
    cli_wine: Option<Seq<char>>,
    file_keys: Seq<Seq<char>>,
    host: HostSnapshot,
) -> Option<Seq<Seq<char>>> {
    let pyramid = context.configuration_pyramid_representing_all_layers;
    let home = context.path_buf_representing_host_home_directory@;
    let sandbox_home = host.absolute(context.path_buf_representing_sandbox_home_directory@);
    let wine = sandbox_wine_binary(pyramid, cli_wine, host);
    match inner_command(pyramid, wine, target, sandbox_home, home, host) {
        None => None,
        Some(inner) => Some(
            system_segment(host) + namespace_segment(pyramid) + device_segment(pyramid, host) + directory_segment(dirs)
                + home_segment(context) + mount_segment(mounts)
                + setenv_segment(forwarded_keys(file_keys), pyramid, sandbox_home, home, host)
                + seq!["--unsetenv"@, "LD_PRELOAD"@] + library_segment(pyramid, wine, host) + seq!["--die-with-parent"@]
                + seq!["--chdir"@, working_directory(target, sandbox_home, home, host)] + inner,
        ),
    }
}

// ==========================================
// Building the arguments
// ==========================================

fn push_str_arg(v: &mut Vec<String>, s: &str)
    ensures
        string_views(final(v)@) == string_views(old(v)@).push(s@),
{
    push_string(v, owned(s));
}

fn push_if(v: &mut Vec<String>, condition: bool, s: &str)
    ensures
        string_views(final(v)@) == string_views(old(v)@) + (if condition { seq![s@] } else { Seq::<Seq<char>>::empty() }),
{
    let ghost before = string_views(v@);
    if condition {
        push_str_arg(v, s);
    }
    assert(string_views(v@) =~= before + (if condition { seq![s@] } else { Seq::<Seq<char>>::empty() }));
}

fn push_existing_binds(args: &mut Vec<String>, flag: &str, paths: &Vec<String>, host: &HostSnapshot)
    ensures
        string_views(final(args)@) == string_views(old(args)@) + bind_existing(flag@, string_views(paths@), *host),
{
    let ghost start = string_views(args@);
    let ghost ps = string_views(paths@);
    let mut i: usize = 0;
    assert(ps.take(0) =~= Seq::<Seq<char>>::empty());
    assert(start + bind_existing(flag@, ps.take(0), *host) =~= start);
    while i < paths.len()
        invariant
            i <= paths@.len(),
            ps == string_views(paths@),
            string_views(args@) == start + bind_existing(flag@, ps.take(i as int), *host),
        decreases paths@.len() - i,
    {
        let p = &paths[i];
        assert(ps.take(i + 1).drop_last() =~= ps.take(i as int));
        assert(ps.take(i + 1).last() == p@);
        let ghost before = string_views(args@);
        let ghost part = if host.path_exists(p@) { seq![flag@, p@, p@] } else { Seq::<Seq<char>>::empty() };
        if host.exists_at(p.as_str()) {
            push_str_arg(args, flag);
            push_string(args, p.clone());
            push_string(args, p.clone());
        }
        assert(string_views(args@) =~= before + part);
        assert(start + bind_existing(flag@, ps.take(i + 1), *host) =~= before + part);
        i += 1;
    }
    assert(ps.take(ps.len() as int) =~= ps);
}

fn core_system_path_list() -> (r: Vec<String>)
    ensures
        string_views(r@) == core_system_paths(),
{
    let mut r: Vec<String> = Vec::new();
    push_str_arg(&mut r, "/usr");
    push_str_arg(&mut r, "/etc");
    push_str_arg(&mut r, "/sys");
    push_str_arg(&mut r, "/proc");
    assert(string_views(r@) =~= core_system_paths());
    r
}

fn optional_system_path_list() -> (r: Vec<String>)
    ensures
        string_views(r@) == optional_system_paths(),
{
    let mut r: Vec<String> = Vec::new();
    push_str_arg(&mut r, "/bin");
    push_str_arg(&mut r, "/sbin");
    push_str_arg(&mut r, "/lib");
    push_str_arg(&mut r, "/lib64");
    assert(string_views(r@) =~= optional_system_paths());
    r
}

fn nvidia_device_path_list() -> (r: Vec<String>)
    ensures
        string_views(r@) == nvidia_device_paths(),
{
    let mut r: Vec<String> = Vec::new();
    push_str_arg(&mut r, "/dev/nvidia0");
    push_str_arg(&mut r, "/dev/nvidia1");
    push_str_arg(&mut r, "/dev/nvidia2");
    push_str_arg(&mut r, "/dev/nvidia3");
    push_str_arg(&mut r, "/dev/nvidia4");
    push_str_arg(&mut r, "/dev/nvidia5");
    push_str_arg(&mut r, "/dev/nvidia6");
    push_str_arg(&mut r, "/dev/nvidia7");
    push_str_arg(&mut r, "/dev/nvidia8");
    push_str_arg(&mut r, "/dev/nvidia9");
    push_str_arg(&mut r, "/dev/nvidiactl");
    push_str_arg(&mut r, "/dev/nvidia-modeset");
    push_str_arg(&mut r, "/dev/nvidia-uvm");
    push_str_arg(&mut r, "/dev/nvidia-uvm-tools");
    assert(string_views(r@) =~= nvidia_device_paths());
    r
}

fn single_path_list(p: &str) -> (r: Vec<String>)
    ensures
        string_views(r@) == seq![p@],
{
    let mut r: Vec<String> = Vec::new();
    push_str_arg(&mut r, p);
    assert(string_views(r@) =~= seq![p@]);
    r
}

fn push_system_segment(args: &mut Vec<String>, host: &HostSnapshot)
    ensures
        string_views(final(args)@) == string_views(old(args)@) + system_segment(*host),
{
    let ghost start = string_views(args@);
    push_existing_binds(args, "--ro-bind", &core_system_path_list(), host);
    push_existing_binds(args, "--ro-bind-try", &optional_system_path_list(), host);
    push_str_arg(args, "--tmpfs");
    push_str_arg(args, "/tmp");
    push_str_arg(args, "--tmpfs");
    push_str_arg(args, "/var");
    push_str_arg(args, "--tmpfs");
    push_str_arg(args, "/run");
    assert(string_views(args@) =~= start + system_segment(*host));
}

fn push_namespace_segment(args: &mut Vec<String>, pyramid: &ConfigurationPyramid)
    ensures
        string_views(final(args)@) == string_views(old(args)@) + namespace_segment(*pyramid),
{
    let ghost start = string_views(args@);
    let net = pyramid.resolve_configuration_value("WINER_NET", "1");
    push_if(args, str_equal(net.as_str(), "0"), "--unshare-net");
    let pid = pyramid.resolve_configuration_value("WINER_SHARE_PID", "1");
    push_if(args, str_equal(pid.as_str(), "0"), "--unshare-pid");
    let ipc = pyramid.resolve_configuration_value("WINER_IPC", "1");
    push_if(args, str_equal(ipc.as_str(), "0"), "--unshare-ipc");
    assert(string_views(args@) =~= start + namespace_segment(*pyramid));
}

fn push_device_segment(args: &mut Vec<String>, pyramid: &ConfigurationPyramid, host: &HostSnapshot)
    ensures
        string_views(final(args)@) == string_views(old(args)@) + device_segment(*pyramid, *host),
{
    let ghost start = string_views(args@);
    let dev = pyramid.resolve_configuration_value("WINER_DEV", "1");
    if str_equal(dev.as_str(), "1") {
        push_existing_binds(args, "--dev-bind", &single_path_list("/dev"), host);
    } else {
        push_str_arg(args, "--dev");
        push_str_arg(args, "/dev");
        push_existing_binds(args, "--dev-bind", &single_path_list("/dev/dri"), host);
        push_existing_binds(args, "--dev-bind", &nvidia_device_path_list(), host);
    }
    assert(string_views(args@) =~= start + device_segment(*pyramid, *host));
}

fn push_directory_segment(args: &mut Vec<String>, dirs: &Vec<String>)
    ensures
        string_views(final(args)@) == string_views(old(args)@) + directory_segment(string_views(dirs@)),
{
    let ghost start = string_views(args@);
    let ghost ds = string_views(dirs@);
    let mut i: usize = 0;
    assert(ds.take(0) =~= Seq::<Seq<char>>::empty());
    assert(start + directory_segment(ds.take(0)) =~= start);
    while i < dirs.len()
        invariant
            i <= dirs@.len(),
            ds == string_views(dirs@),
            string_views(args@) == start + directory_segment(ds.take(i as int)),
        decreases dirs@.len() - i,
    {
        assert(ds.take(i + 1).drop_last() =~= ds.take(i as int));
        assert(ds.take(i + 1).last() == dirs@[i as int]@);
        let ghost before = string_views(args@);
        push_str_arg(args, "--dir");
        push_string(args, dirs[i].clone());
        assert(start + directory_segment(ds.take(i + 1)) =~= before + seq!["--dir"@, dirs@[i as int]@]);
        i += 1;
    }
    assert(ds.take(ds.len() as int) =~= ds);
}

fn push_home_segment(args: &mut Vec<String>, context: &SandboxContext)
    ensures
        string_views(final(args)@) == string_views(old(args)@) + home_segment(*context),
{
    let ghost start = string_views(args@);
    push_str_arg(args, "--bind");
    push_string(args, context.path_buf_representing_sandbox_home_directory.clone());
    push_string(args, context.path_buf_representing_host_home_directory.clone());
    push_str_arg(args, "--setenv");
    push_str_arg(args, "HOME");
    push_string(args, context.path_buf_representing_host_home_directory.clone());
    push_str_arg(args, "--setenv");
    push_str_arg(args, "USER");
    push_string(args, context.string_representing_host_username.clone());
    push_str_arg(args, "--setenv");
    push_str_arg(args, "LOGNAME");
    push_string(args, context.string_representing_host_username.clone());
    assert(string_views(args@) =~= start + home_segment(*context));
}

fn push_mount_segment(args: &mut Vec<String>, mounts: &Vec<MountSpecification>)
    ensures
        string_views(final(args)@) == string_views(old(args)@) + mount_segment(mount_views(mounts@)),
{
    let ghost start = string_views(args@);
    let ghost ms = mount_views(mounts@);
    let mut i: usize = 0;
    assert(ms.take(0) =~= Seq::<MountModel>::empty());
    assert(start + mount_segment(ms.take(0)) =~= start);
    while i < mounts.len()
        invariant
            i <= mounts@.len(),
            ms == mount_views(mounts@),
            string_views(args@) == start + mount_segment(ms.take(i as int)),
        decreases mounts@.len() - i,
    {
        let m = &mounts[i];
        assert(ms.take(i + 1).drop_last() =~= ms.take(i as int));
        assert(ms.take(i + 1).last() == m@);
        let ghost before = string_views(args@);
        if m.boolean_flag_indicating_readonly {
            push_str_arg(args, "--ro-bind");
        } else {
            push_str_arg(args, "--bind");
        }
        push_string(args, m.path_buf_representing_host_source.clone());
        push_string(args, m.path_buf_representing_container_destination.clone());
        assert(start + mount_segment(ms.take(i + 1)) =~= before + seq![
            if m@.readonly { "--ro-bind"@ } else { "--bind"@ },
            m@.source,
            m@.destination,
        ]);
        i += 1;
    }
    assert(ms.take(ms.len() as int) =~= ms);
}

fn in_container(p: String, sandbox_home: &str, home: &str) -> (r: String)
    ensures
        r@ == in_container_path(p@, sandbox_home@, home@),
{
    if path_has_prefix(p.as_str(), sandbox_home) {
        match strip_path_prefix(p.as_str(), sandbox_home) {
            Some(rel) => join_path(home, rel.as_str()),
            None => p,
        }
    } else {
        p
    }
}

fn forwarded_path_value_of(v: String, sandbox_home: &str, home: &str, host: &HostSnapshot) -> (r: String)
    ensures
        r@ == forwarded_path_value(v@, sandbox_home@, home@, *host),
{
    let a = host.absolute_of(v.as_str());
    if path_has_prefix(a.as_str(), sandbox_home) {
        match strip_path_prefix(a.as_str(), sandbox_home) {
            Some(rel) => join_path(home, rel.as_str()),
            None => v,
        }
    } else {
        v
    }
}

fn push_setenv_for_key(
    args: &mut Vec<String>,
    key: &str,
    pyramid: &ConfigurationPyramid,
    sandbox_home: &str,
    home: &str,
    host: &HostSnapshot,
)
    ensures
        string_views(final(args)@) == string_views(old(args)@) + setenv_for_key(key@, *pyramid, sandbox_home@, home@, *host),
{
    let ghost start = string_views(args@);
    let kv = chars_of(key);
    let is_winer = crate::text::chars_start_with(&kv, &chars_of("WINER_"));
    let is_exe_path = str_equal(key, "WINER_EXE_PATH");
    if !is_winer || is_exe_path {
        let v = pyramid.resolve_configuration_value(key, "");
        if chars_of(v.as_str()).len() > 0 {
            let shown = if str_equal(key, "WINEPREFIX") || is_exe_path {
                forwarded_path_value_of(v, sandbox_home, home, host)
            } else {
                v
            };
            push_str_arg(args, "--setenv");
            push_str_arg(args, key);
            push_string(args, shown);
        }
    }
    assert(string_views(args@) =~= start + setenv_for_key(key@, *pyramid, sandbox_home@, home@, *host));
}

fn push_setenv_segment(
    args: &mut Vec<String>,
    keys: &Vec<String>,
    pyramid: &ConfigurationPyramid,
    sandbox_home: &str,
    home: &str,
    host: &HostSnapshot,
)
    ensures
        string_views(final(args)@) == string_views(old(args)@) + setenv_segment(string_views(keys@), *pyramid, sandbox_home@, home@, *host),
{
    let ghost start = string_views(args@);
    let ghost ks = string_views(keys@);
    let mut i: usize = 0;
    assert(ks.take(0) =~= Seq::<Seq<char>>::empty());
    assert(start + setenv_segment(ks.take(0), *pyramid, sandbox_home@, home@, *host) =~= start);
    while i < keys.len()
        invariant
            i <= keys@.len(),
            ks == string_views(keys@),
            string_views(args@) == start + setenv_segment(ks.take(i as int), *pyramid, sandbox_home@, home@, *host),
        decreases keys@.len() - i,
    {
        assert(ks.take(i + 1).drop_last() =~= ks.take(i as int));
        assert(ks.take(i + 1).last() == keys@[i as int]@);
        let ghost before = string_views(args@);
        push_setenv_for_key(args, keys[i].as_str(), pyramid, sandbox_home, home, host);
        assert(start + setenv_segment(ks.take(i + 1), *pyramid, sandbox_home@, home@, *host) =~= before
            + setenv_for_key(keys@[i as int]@, *pyramid, sandbox_home@, home@, *host));
        i += 1;
    }
    assert(ks.take(ks.len() as int) =~= ks);
}

fn forwarded_key_list(file_keys: &Vec<String>) -> (r: Vec<String>)
    ensures
        string_views(r@) == forwarded_keys(string_views(file_keys@)),
{
    let ghost fk = string_views(file_keys@);
    let ghost pred = |k: Seq<char>| !is_always_forwarded_key(k);
    let mut r: Vec<String> = Vec::new();
    push_str_arg(&mut r, "WINEPREFIX");
    push_str_arg(&mut r, "WINER_EXE_PATH");
    let ghost head = string_views(r@);
    assert(head =~= seq!["WINEPREFIX"@, "WINER_EXE_PATH"@]);
    let mut i: usize = 0;
    assert(fk.take(0) =~= Seq::<Seq<char>>::empty());
    assert(fk.take(0).filter(pred) =~= Seq::<Seq<char>>::empty()) by {
        reveal(Seq::filter);
    }
    assert(head + fk.take(0).filter(pred) =~= head);
    while i < file_keys.len()
        invariant
            i <= file_keys@.len(),
            fk == string_views(file_keys@),
            head == seq!["WINEPREFIX"@, "WINER_EXE_PATH"@],
            pred == (|k: Seq<char>| !is_always_forwarded_key(k)),
            string_views(r@) == head + fk.take(i as int).filter(pred),
        decreases file_keys@.len() - i,
    {
        let k = &file_keys[i];
        assert(fk.take(i + 1) =~= fk.take(i as int).push(k@));
        proof {
            fk.take(i as int).lemma_filter_push(k@, pred);
        }
        let ghost before = string_views(r@);
        if !(str_equal(k.as_str(), "WINEPREFIX") || str_equal(k.as_str(), "WINER_EXE_PATH")) {
            push_string(&mut r, k.clone());
            assert(head + fk.take(i + 1).filter(pred) =~= before.push(k@));
        } else {
            assert(head + fk.take(i + 1).filter(pred) =~= before);
        }
        i += 1;
    }
    assert(fk.take(fk.len() as int) =~= fk);
    r
}

fn sandbox_wine_binary_of(pyramid: &ConfigurationPyramid, cli_wine: &Option<String>, host: &HostSnapshot) -> (r: String)
    ensures
        r@ == sandbox_wine_binary(*pyramid, opt_view(*cli_wine), *host),
{
    match cli_wine {
        Some(c) => host.absolute_of(c.as_str()),
        None => {
            let raw = pyramid.resolve_configuration_value("WINER_WINE_PATH", "wine");
            if str_equal(raw.as_str(), "wine") {
                raw
            } else {
                host.absolute_of(raw.as_str())
            }
        },
    }
}

fn library_subdirectory_list() -> (r: Vec<String>)
    ensures
        string_views(r@) == library_subdirectories(),
{
    let mut r: Vec<String> = Vec::new();
    push_str_arg(&mut r, "lib");
    push_str_arg(&mut r, "lib64");
    push_str_arg(&mut r, "files/lib");
    push_str_arg(&mut r, "files/lib64");
    assert(string_views(r@) =~= library_subdirectories());
    r
}

fn gstreamer_subdirectory_list() -> (r: Vec<String>)
    ensures
        string_views(r@) == gstreamer_subdirectories(),
{
    let mut r: Vec<String> = Vec::new();
    push_str_arg(&mut r, "lib/gstreamer-1.0");
    push_str_arg(&mut r, "lib64/gstreamer-1.0");
    push_str_arg(&mut r, "files/lib/gstreamer-1.0");
    push_str_arg(&mut r, "files/lib64/gstreamer-1.0");
    assert(string_views(r@) =~= gstreamer_subdirectories());
    r
}

fn existing_subdirectories_of(root: &str, subs: &Vec<String>, host: &HostSnapshot) -> (r: Vec<String>)
    ensures
        string_views(r@) == existing_subdirectories(root@, string_views(subs@), *host),
{
    let ghost ss = string_views(subs@);
    let mut r: Vec<String> = Vec::new();
    let mut i: usize = 0;
    assert(ss.take(0) =~= Seq::<Seq<char>>::empty());
    assert(string_views(r@) =~= existing_subdirectories(root@, ss.take(0), *host));
    while i < subs.len()
        invariant
            i <= subs@.len(),
            ss == string_views(subs@),
            string_views(r@) == existing_subdirectories(root@, ss.take(i as int), *host),
        decreases subs@.len() - i,
    {
        assert(ss.take(i + 1).drop_last() =~= ss.take(i as int));
        assert(ss.take(i + 1).last() == subs@[i as int]@);
        let ghost before = string_views(r@);
        let p = join_path(root, subs[i].as_str());
        if host.exists_at(p.as_str()) {
            push_string(&mut r, p);
        }
        assert(string_views(r@) =~= existing_subdirectories(root@, ss.take(i + 1), *host));
        i += 1;
    }
    assert(ss.take(ss.len() as int) =~= ss);
    r
}

fn colon_join(parts: &Vec<String>) -> (r: String)
    ensures
        r@ == colon_joined(string_views(parts@)),
{
    let ghost ps = string_views(parts@);
    let mut acc: Vec<char> = Vec::new();
    let mut i: usize = 0;
    assert(ps.take(0) =~= Seq::<Seq<char>>::empty());
    while i < parts.len()
        invariant
            i <= parts@.len(),
            ps == string_views(parts@),
            acc@ == colon_joined(ps.take(i as int)),
        decreases parts@.len() - i,
    {
        assert(ps.take(i + 1).drop_last() =~= ps.take(i as int));
        assert(ps.take(i + 1).last() == parts@[i as int]@);
        let part = chars_of(parts[i].as_str());
        if i == 0 {
            acc = concat_chars(&acc, &part);
            assert(ps.take(1) =~= seq![parts@[0]@]);
            assert(acc@ =~= colon_joined(ps.take(1)));
        } else {
            let with_colon = concat_chars(&acc, &chars_of(":"));
            acc = concat_chars(&with_colon, &part);
        }
        i += 1;
    }
    assert(ps.take(ps.len() as int) =~= ps);
    string_from_chars(&acc)
}

fn push_library_segment(args: &mut Vec<String>, pyramid: &ConfigurationPyramid, wine: &str, host: &HostSnapshot)
    ensures
        string_views(final(args)@) == string_views(old(args)@) + library_segment(*pyramid, wine@, *host),
{
    let ghost start = string_views(args@);
    let ld_needed = chars_of(pyramid.resolve_configuration_value("LD_LIBRARY_PATH", "").as_str()).len() == 0;
    let gst_needed = chars_of(pyramid.resolve_configuration_value("GST_PLUGIN_PATH", "").as_str()).len() == 0;
    let root = if is_custom_engine_path_exec(wine) {
        resolve_wine_runner_root_directory_from_binary_path(wine)
    } else {
        None
    };
    assert(opt_view(root) == sandbox_runner_root(wine@));
    let mut gst_value = String::new();
    match &root {
        Some(r) => {
            let libs = existing_subdirectories_of(r.as_str(), &library_subdirectory_list(), host);
            if ld_needed && libs.len() > 0 {
                push_str_arg(args, "--setenv");
                push_str_arg(args, "LD_LIBRARY_PATH");
                push_string(args, colon_join(&libs));
            }
            let plugins = existing_subdirectories_of(r.as_str(), &gstreamer_subdirectory_list(), host);
            gst_value = colon_join(&plugins);
        },
        None => {
            assert(gst_value@ =~= Seq::<char>::empty());
        },
    }
    let ghost mid = string_views(args@);
    if gst_needed {
        push_str_arg(args, "--setenv");
        push_str_arg(args, "GST_PLUGIN_PATH");
        push_string(args, gst_value);
    }
    assert(string_views(args@) =~= start + library_segment(*pyramid, wine@, *host));
}

fn working_directory_of(target: &TargetSpecification, sandbox_home: &str, home: &str, host: &HostSnapshot) -> (r: String)
    ensures
        r@ == working_directory(target@, sandbox_home@, home@, *host),
{
    let dir = match &target.target_category_enum_representing_execution_type {
        TargetCategory::PhysicalWindowsExecutable { path_buf_representing_host_absolute_path } => {
            match parent_path(path_buf_representing_host_absolute_path.as_str()) {
                Some(d) => d,
                None => owned(home),
            }
        },
        _ => owned(home),
    };
    in_container(host.absolute_of(dir.as_str()), sandbox_home, home)
}

fn inner_command_of(
    pyramid: &ConfigurationPyramid,
    wine: &str,
    target: &TargetSpecification,
    sandbox_home: &str,
    home: &str,
    host: &HostSnapshot,
) -> (r: Option<Vec<String>>)
    ensures
        match r {
            Some(v) => inner_command(*pyramid, wine@, target@, sandbox_home@, home@, *host) == Some(string_views(v@)),
            None => inner_command(*pyramid, wine@, target@, sandbox_home@, home@, *host) is None,
        },
{
    let target_part = match &target.target_category_enum_representing_execution_type {
        TargetCategory::WineMulticallTool { string_representing_subcommand_name } => string_representing_subcommand_name.clone(),
        TargetCategory::VirtualWineCommand { string_representing_command_name } => string_representing_command_name.clone(),
        TargetCategory::PhysicalWindowsExecutable { path_buf_representing_host_absolute_path } => {
            in_container(host.absolute_of(path_buf_representing_host_absolute_path.as_str()), sandbox_home, home)
        },
        TargetCategory::HostLinuxExecutableBlock => {
            return None;
        },
    };
    let mut inner: Vec<String> = Vec::new();
    let game = pyramid.resolve_configuration_value("WINER_GAMEMODE", "0");
    push_if(&mut inner, str_equal(game.as_str(), "1"), "gamemoderun");
    push_str_arg(&mut inner, wine);
    extend_strings(&mut inner, target.vector_of_strings_representing_launcher_prefix_commands.as_slice());
    push_string(&mut inner, target_part);
    extend_strings(&mut inner, target.vector_of_strings_representing_remaining_cli_arguments.as_slice());
    proof {
        let t = target@;
        let tp = match t.category {
            CategoryModel::WineMulticallTool(n) => seq![n],
            CategoryModel::VirtualWineCommand(n) => seq![n],
            CategoryModel::PhysicalWindowsExecutable(p) => seq![in_container_path(host.absolute(p), sandbox_home@, home@)],
            CategoryModel::HostLinuxExecutableBlock => Seq::<Seq<char>>::empty(),
        };
        assert(string_views(inner@) =~= (if pyramid.resolved_value("WINER_GAMEMODE"@, "0"@) == "1"@ {
            seq!["gamemoderun"@]
        } else {
            Seq::<Seq<char>>::empty()
        }) + seq![wine@] + t.prefixes + tp + t.remaining);
    }
    Some(inner)
}

/// The view of an optional list of strings.
pub open spec fn strings_option_view(o: Option<Vec<String>>) -> Option<Seq<Seq<char>>> {
    match o {
        Some(v) => Some(string_views(v@)),
        None => None,
    }
}

/// The bubblewrap argument list for a run: the sandbox's file system,
/// namespaces and devices, the directories to create, the home directory and
/// the mounts, the environment handed in, the working directory, and the
/// command run inside.  There is none for a blocked Linux target.  The keys
/// of the configuration files are handed into the sandbox in some order in
/// which each occurs once.
pub fn assemble_bubblewrap_arguments(
    context: &SandboxContext,
    target: &TargetSpecification,
    directories_to_create: &Vec<String>,
    mounts: &Vec<MountSpecification>,
    cli_wine: &Option<String>,
    host: &HostSnapshot,
) -> (r: Option<Vec<String>>)
    ensures
        r is None <==> target@.category is HostLinuxExecutableBlock,
        exists|file_keys: Seq<Seq<char>>|
            #![trigger bubblewrap_arguments(*context, target@, string_views(directories_to_create@), mount_views(mounts@), opt_view(*cli_wine), file_keys, *host)]
            {
                &&& file_keys.no_duplicates()
                &&& file_keys.to_set() == context.configuration_pyramid_representing_all_layers.file_keys()
                &&& strings_option_view(r) == bubblewrap_arguments(
                    *context,
                    target@,
                    string_views(directories_to_create@),
                    mount_views(mounts@),
                    opt_view(*cli_wine),
                    file_keys,
                    *host,
                )
            },
{
    let pyramid = &context.configuration_pyramid_representing_all_layers;
    let home = context.path_buf_representing_host_home_directory.as_str();
    let sandbox_home = host.absolute_of(context.path_buf_representing_sandbox_home_directory.as_str());
    let wine = sandbox_wine_binary_of(pyramid, cli_wine, host);
    let file_keys = pyramid.file_configuration_keys();
    let ghost fk = string_views(file_keys@);
    let ghost expected = bubblewrap_arguments(
        *context,
        target@,
        string_views(directories_to_create@),
        mount_views(mounts@),
        opt_view(*cli_wine),
        fk,
        *host,
    );
    let inner = match inner_command_of(pyramid, wine.as_str(), target, sandbox_home.as_str(), home, host) {
        Some(v) => v,
        None => {
            assert(expected is None);
            return None;
        },
    };
    let keys = forwarded_key_list(&file_keys);
    let mut args: Vec<String> = Vec::new();
    push_system_segment(&mut args, host);
    push_namespace_segment(&mut args, pyramid);
    push_device_segment(&mut args, pyramid, host);
    push_directory_segment(&mut args, directories_to_create);
    push_home_segment(&mut args, context);
    push_mount_segment(&mut args, mounts);
    push_setenv_segment(&mut args, &keys, pyramid, sandbox_home.as_str(), home, host);
    push_str_arg(&mut args, "--unsetenv");
    push_str_arg(&mut args, "LD_PRELOAD");
    push_library_segment(&mut args, pyramid, wine.as_str(), host);
    push_str_arg(&mut args, "--die-with-parent");
    push_str_arg(&mut args, "--chdir");
    push_string(&mut args, working_directory_of(target, sandbox_home.as_str(), home, host));
    extend_strings(&mut args, inner.as_slice());
    proof {
        let e = expected->0;
        assert(string_views(args@) =~= e);
    }
    Some(args)
}

// ==========================================
// What assembling reads from the host
// ==========================================

/// `root/sub` for each subdirectory.
pub open spec fn subdirectory_paths(root: Seq<char>, subs: Seq<Seq<char>>) -> Seq<Seq<char>> {
    subs.map_values(|sub: Seq<char>| path_join(root, sub))
}

/// The directory the working directory is taken from, before it is made
/// absolute.
pub open spec fn working_directory_source(target: TargetModel, home: Seq<char>) -> Seq<char> {
    match target.category {
        CategoryModel::PhysicalWindowsExecutable(p) => match path_parent(p) {
            Some(d) => d,
            None => home,
        },
        _ => home,
    }
}

/// The host paths whose facts assembling the arguments reads.  The runner's
/// library directories depend on where the Wine binary was found, so the
/// list can grow once the binary's path has been observed.
pub open spec fn assembly_queries(context: SandboxContext, target: TargetModel, cli_wine: Option<Seq<char>>, host: HostSnapshot) -> Seq<Seq<char>> {
    let pyramid = context.configuration_pyramid_representing_all_layers;
    let prefix = pyramid.resolved_value("WINEPREFIX"@, ""@);
    let exe_path = pyramid.resolved_value("WINER_EXE_PATH"@, ""@);
    let wine = sandbox_wine_binary(pyramid, cli_wine, host);
    core_system_paths() + optional_system_paths() + seq!["/dev"@, "/dev/dri"@] + nvidia_device_paths()
        + seq![context.path_buf_representing_sandbox_home_directory@, custom_wine_binary(pyramid, cli_wine)]
        + (if prefix.len() > 0 { seq![prefix] } else { Seq::<Seq<char>>::empty() })
        + (if exe_path.len() > 0 { seq![exe_path] } else { Seq::<Seq<char>>::empty() })
        + seq![working_directory_source(target, context.path_buf_representing_host_home_directory@)]
        + (match target.category {
            CategoryModel::PhysicalWindowsExecutable(p) => seq![p],
            _ => Seq::<Seq<char>>::empty(),
        })
        + (match sandbox_runner_root(wine) {
            Some(root) => subdirectory_paths(root, library_subdirectories()) + subdirectory_paths(root, gstreamer_subdirectories()),
            None => Seq::<Seq<char>>::empty(),
        })
}

fn push_subdirectory_paths(r: &mut Vec<String>, root: &str, subs: &Vec<String>)
    ensures
        string_views(final(r)@) == string_views(old(r)@) + subdirectory_paths(root@, string_views(subs@)),
{
    let ghost start = string_views(r@);
    let ghost ss = string_views(subs@);
    let mut i: usize = 0;
    while i < subs.len()
        invariant
            i <= subs@.len(),
            ss == string_views(subs@),
            string_views(r@) == start + subdirectory_paths(root@, ss.take(i as int)),
        decreases subs@.len() - i,
    {
        let ghost before = string_views(r@);
        push_string(r, join_path(root, subs[i].as_str()));
        assert(subdirectory_paths(root@, ss.take(i + 1)) =~= subdirectory_paths(root@, ss.take(i as int)).push(
            path_join(root@, subs@[i as int]@),
        ));
        i += 1;
    }
    assert(ss.take(ss.len() as int) =~= ss);
}

/// The host paths whose facts assembling the arguments reads.
pub fn assembly_host_queries(
    context: &SandboxContext,
    target: &TargetSpecification,
    cli_wine: &Option<String>,
    host: &HostSnapshot,
) -> (r: Vec<String>)
    ensures
        string_views(r@) == assembly_queries(*context, target@, opt_view(*cli_wine), *host),
{
    let pyramid = &context.configuration_pyramid_representing_all_layers;
    let home = context.path_buf_representing_host_home_directory.as_str();
    let mut r = core_system_path_list();
    extend_strings(&mut r, optional_system_path_list().as_slice());
    push_str_arg(&mut r, "/dev");
    push_str_arg(&mut r, "/dev/dri");
    extend_strings(&mut r, nvidia_device_path_list().as_slice());
    push_string(&mut r, context.path_buf_representing_sandbox_home_directory.clone());
    push_string(&mut r, custom_wine_binary_of(pyramid, cli_wine));
    let ghost s1 = string_views(r@);
    let prefix = pyramid.resolve_configuration_value("WINEPREFIX", "");
    if chars_of(prefix.as_str()).len() > 0 {
        push_string(&mut r, prefix);
    }
    let exe_path = pyramid.resolve_configuration_value("WINER_EXE_PATH", "");
    if chars_of(exe_path.as_str()).len() > 0 {
        push_string(&mut r, exe_path);
    }
    let dir = match &target.target_category_enum_representing_execution_type {
        TargetCategory::PhysicalWindowsExecutable { path_buf_representing_host_absolute_path } => {
            match parent_path(path_buf_representing_host_absolute_path.as_str()) {
                Some(d) => d,
                None => owned(home),
            }
        },
        _ => owned(home),
    };
    push_string(&mut r, dir);
    match &target.target_category_enum_representing_execution_type {
        TargetCategory::PhysicalWindowsExecutable { path_buf_representing_host_absolute_path } => {
            push_string(&mut r, path_buf_representing_host_absolute_path.clone());
        },
        _ => {},
    }
    let ghost s2 = string_views(r@);
    let wine = sandbox_wine_binary_of(pyramid, cli_wine, host);
    let root = if is_custom_engine_path_exec(wine.as_str()) {
        resolve_wine_runner_root_directory_from_binary_path(wine.as_str())
    } else {
        None
    };
    assert(opt_view(root) == sandbox_runner_root(wine@));
    match &root {
        Some(rt) => {
            push_subdirectory_paths(&mut r, rt.as_str(), &library_subdirectory_list());
            push_subdirectory_paths(&mut r, rt.as_str(), &gstreamer_subdirectory_list());
        },
        None => {},
    }
    assert(string_views(r@) =~= assembly_queries(*context, target@, opt_view(*cli_wine), *host));
    r
}

// ==========================================
// Laws of the command line
// ==========================================

/// Whatever the configuration, the sandbox is tied to its parent
/// (`--die-with-parent`), `LD_PRELOAD` is unset inside it, and the sandbox
/// home is mounted over the host home.
pub proof fn lemma_sandbox_safeguards_always_present(
    context: SandboxContext,
    target: TargetModel,
    dirs: Seq<Seq<char>>,
    mounts: Seq<MountModel>,
    cli_wine: Option<Seq<char>>,
    file_keys: Seq<Seq<char>>,
    host: HostSnapshot,
)
    ensures
        bubblewrap_arguments(context, target, dirs, mounts, cli_wine, file_keys, host) matches Some(a) ==> {
            &&& a.contains("--die-with-parent"@)
            &&& exists|k: int| 0 <= k < a.len() - 1 && a[k] == "--unsetenv"@ && #[trigger] a[k + 1] == "LD_PRELOAD"@
            &&& exists|k: int| 0 <= k < a.len() - 2 && a[k] == "--bind"@
                && #[trigger] a[k + 1] == context.path_buf_representing_sandbox_home_directory@
                && a[k + 2] == context.path_buf_representing_host_home_directory@
        },
{
    let pyramid = context.configuration_pyramid_representing_all_layers;
    let home = context.path_buf_representing_host_home_directory@;
    let sandbox_home = host.absolute(context.path_buf_representing_sandbox_home_directory@);
    let wine = sandbox_wine_binary(pyramid, cli_wine, host);
    match inner_command(pyramid, wine, target, sandbox_home, home, host) {
        None => {},
        Some(inner) => {
            let x = system_segment(host) + namespace_segment(pyramid) + device_segment(pyramid, host) + directory_segment(dirs);
            let h = home_segment(context);
            let y = x + h + mount_segment(mounts) + setenv_segment(forwarded_keys(file_keys), pyramid, sandbox_home, home, host);
            let u = seq!["--unsetenv"@, "LD_PRELOAD"@];
            let z = y + u + library_segment(pyramid, wine, host);
            let d = seq!["--die-with-parent"@];
            let rest = seq!["--chdir"@, working_directory(target, sandbox_home, home, host)] + inner;
            let a = z + d + rest;
            assert(bubblewrap_arguments(context, target, dirs, mounts, cli_wine, file_keys, host) == Some(a));
            assert(a[z.len() as int] == "--die-with-parent"@);
            assert((y + u)[y.len() as int] == "--unsetenv"@);
            assert((y + u)[y.len() as int + 1] == "LD_PRELOAD"@);
            assert(a[y.len() as int] == "--unsetenv"@);
            assert(a[y.len() as int + 1] == "LD_PRELOAD"@);
            assert((x + h)[x.len() as int] == "--bind"@);
            assert((x + h)[x.len() as int + 1] == context.path_buf_representing_sandbox_home_directory@);
            assert((x + h)[x.len() as int + 2] == home);
            assert(a[x.len() as int] == "--bind"@);
            assert(a[x.len() as int + 1] == context.path_buf_representing_sandbox_home_directory@);
            assert(a[x.len() as int + 2] == home);
        },
    }
}

/// The target's own arguments are handed on untouched, at the very end of
/// the command line.
pub proof fn lemma_target_arguments_come_last(
    context: SandboxContext,
    target: TargetModel,
    dirs: Seq<Seq<char>>,
    mounts: Seq<MountModel>,
    cli_wine: Option<Seq<char>>,
    file_keys: Seq<Seq<char>>,
    host: HostSnapshot,
)
    ensures
        bubblewrap_arguments(context, target, dirs, mounts, cli_wine, file_keys, host) matches Some(a) ==> {
            &&& target.remaining.len() <= a.len()
            &&& a.skip(a.len() - target.remaining.len()) == target.remaining
        },
{
    let pyramid = context.configuration_pyramid_representing_all_layers;
    let home = context.path_buf_representing_host_home_directory@;
    let sandbox_home = host.absolute(context.path_buf_representing_sandbox_home_directory@);
    let wine = sandbox_wine_binary(pyramid, cli_wine, host);
    match bubblewrap_arguments(context, target, dirs, mounts, cli_wine, file_keys, host) {
        None => {},
        Some(a) => {
            let inner = inner_command(pyramid, wine, target, sandbox_home, home, host)->0;
            assert(a.skip(a.len() - inner.len()) =~= inner);
            assert(inner.skip(inner.len() - target.remaining.len()) =~= target.remaining);
            assert(a.skip(a.len() - target.remaining.len()) =~= target.remaining);
        },
    }
}

/// The engine run inside the sandbox: a Wine binary given on the command
/// line, made absolute; else the `WINER_WINE_PATH` configured, made
/// absolute; else the plain `wine` of the sandbox's `PATH`.  It stands
/// right before the launcher prefixes, the target and the target's
/// arguments, at the end of the command line.
pub proof fn lemma_configured_engine_runs_inside(
    context: SandboxContext,
    target: TargetModel,
    dirs: Seq<Seq<char>>,
    mounts: Seq<MountModel>,
    cli_wine: Option<Seq<char>>,
    file_keys: Seq<Seq<char>>,
    host: HostSnapshot,
)
    ensures
        bubblewrap_arguments(context, target, dirs, mounts, cli_wine, file_keys, host) matches Some(a) ==> {
            let k = a.len() - target.remaining.len() - target.prefixes.len() - 2;
            let configured = context.configuration_pyramid_representing_all_layers.resolved_value("WINER_WINE_PATH"@, "wine"@);
            &&& 0 <= k
            &&& (cli_wine matches Some(c) ==> a[k] == host.absolute(c))
            &&& (cli_wine is None && configured != "wine"@ ==> a[k] == host.absolute(configured))
            &&& (cli_wine is None && configured == "wine"@ ==> a[k] == "wine"@)
            &&& a.skip(k + 1) == target.prefixes + a.skip(k + 1 + target.prefixes.len() as int).take(1) + target.remaining
        },
{
    let pyramid = context.configuration_pyramid_representing_all_layers;
    let home = context.path_buf_representing_host_home_directory@;
    let sandbox_home = host.absolute(context.path_buf_representing_sandbox_home_directory@);
    let wine = sandbox_wine_binary(pyramid, cli_wine, host);
    match bubblewrap_arguments(context, target, dirs, mounts, cli_wine, file_keys, host) {
        None => {},
        Some(a) => {
            let inner = inner_command(pyramid, wine, target, sandbox_home, home, host)->0;
            let gm = if pyramid.resolved_value("WINER_GAMEMODE"@, "0"@) == "1"@ { seq!["gamemoderun"@] } else { Seq::<Seq<char>>::empty() };
            let t = inner.skip(gm.len() as int + 1 + target.prefixes.len()).take(1);
            assert(inner == gm + seq![wine] + target.prefixes + t + target.remaining);
            let k = a.len() - target.remaining.len() - target.prefixes.len() - 2;
            assert(a.skip(a.len() - inner.len()) =~= inner);
            assert(k == a.len() - inner.len() + gm.len());
            assert(a[k] == inner[gm.len() as int]);
            assert(a.skip(k + 1) =~= inner.skip(gm.len() as int + 1));
            assert(inner.skip(gm.len() as int + 1) =~= target.prefixes + t + target.remaining);
            assert(a.skip(k + 1 + target.prefixes.len() as int).take(1) =~= t);
        },
    }
}

} // verus!
