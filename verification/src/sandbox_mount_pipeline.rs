//! Which host paths are mounted into the sandbox, and how the mount points
//! are prepared.
use vstd::prelude::*;
use crate::core_data_structures::{
    append_missing_strings, mount_views, owned, same_place_mount, same_place_mount_of, string_views, CategoryModel,
    MountModel, MountSpecification, SandboxContext, TargetSpecification,
};
use crate::file_system_utilities::{
    get_unique_non_system_parent_paths, non_system_parent_paths,
    resolve_wine_runner_root_directory_from_binary_path, runner_root_of, sandbox_home_mount_point_directory,
    sandbox_mount_point,
};
use crate::host_path::{join_path, opt_view, parent_path, path_equal, path_has_prefix, path_join, path_parent, path_starts_with, paths_equal};
use crate::host_snapshot::{HostEnvironment, HostSnapshot};
use crate::target_resolution_engine::{custom_wine_binary, custom_wine_binary_of};
use vstd::utf8::encode_utf8;
use crate::text::{chars_of, contains_char, split_chars, split_on, str_equal, string_from_chars, trim, trim_chars, seqs_of};

verus! {

// ==========================================
// The shield against mounting shared directories
// ==========================================

/// Directories shared by the whole system, never mounted automatically.
pub open spec fn is_shared_system_directory(path: Seq<char>) -> bool {
    path == "/"@ || path == "/usr"@ || path == "/usr/local"@ || path == "/opt"@ || path == "/mnt"@
        || path == "/media"@ || path == "/etc"@ || path == "/var"@ || path == "/sys"@ || path == "/dev"@
        || path == "/run"@ || path == "/tmp"@
}

/// A directory that must never be mounted automatically: a shared system
/// directory, or the host's home directory itself.
pub open spec fn is_prohibited_directory(path: Seq<char>, home: Seq<char>) -> bool {
    is_shared_system_directory(path) || path_equal(path, home)
}

/// Whether `path` is a directory that must never be mounted automatically.
pub fn determine_if_path_is_prohibited_shared_system_directory(path: &str, home: &str) -> (r: bool)
    ensures
        r == is_prohibited_directory(path@, home@),
{
    let shared = str_equal(path, "/") || str_equal(path, "/usr") || str_equal(path, "/usr/local")
        || str_equal(path, "/opt") || str_equal(path, "/mnt") || str_equal(path, "/media")
        || str_equal(path, "/etc") || str_equal(path, "/var") || str_equal(path, "/sys")
        || str_equal(path, "/dev") || str_equal(path, "/run") || str_equal(path, "/tmp");
    shared || paths_equal(path, home)
}

// ==========================================
// Penetration depth
// ==========================================

/// Whether `c` is an ASCII decimal digit.
pub open spec fn is_decimal_digit(c: char) -> bool {
    '0' <= c && c <= '9'
}

/// The value of a string of decimal digits.
pub open spec fn decimal_value(digits: Seq<char>) -> nat
    decreases digits.len(),
{
    if digits.len() == 0 {
        0
    } else {
        decimal_value(digits.drop_last()) * 10 + (digits.last() as nat - '0' as nat) as nat
    }
}

/// What `str::parse::<usize>` gives: an optional `+` followed by at least
/// one decimal digit and nothing else, whose value fits in a `usize`.
pub open spec fn parsed_usize(s: Seq<char>) -> Option<nat> {
    let digits = unsigned_digits(s);
    if digits.len() > 0 && all_decimal_digits(digits) && decimal_value(digits) <= usize::MAX {
        Some(decimal_value(digits))
    } else {
        None
    }
}

/// The text after an optional leading `+`.
pub open spec fn unsigned_digits(s: Seq<char>) -> Seq<char> {
    if s.len() > 0 && s[0] == '+' {
        s.drop_first()
    } else {
        s
    }
}

/// Every character is a decimal digit.
pub open spec fn all_decimal_digits(d: Seq<char>) -> bool {
    forall|i: int| 0 <= i < d.len() ==> is_decimal_digit(#[trigger] d[i])
}

proof fn lemma_decimal_value_monotone(d: Seq<char>, k: int)
    requires
        0 <= k <= d.len(),
        forall|i: int| 0 <= i < d.len() ==> is_decimal_digit(#[trigger] d[i]),
    ensures
        decimal_value(d.take(k)) <= decimal_value(d),
    decreases d.len() - k,
{
    if k < d.len() {
        lemma_decimal_value_monotone(d, k + 1);
        assert(d.take(k + 1).drop_last() =~= d.take(k));
        assert(is_decimal_digit(d[k]));
    } else {
        assert(d.take(k) =~= d);
    }
}

proof fn overflow_means_no_value(digits: Seq<char>, k: int)
    requires
        0 <= k < digits.len(),
        is_decimal_digit(digits[k]),
        decimal_value(digits.take(k)) * 10 + (digits[k] as nat - '0' as nat) > usize::MAX,
    ensures
        !(all_decimal_digits(digits) && decimal_value(digits) <= usize::MAX),
{
    if all_decimal_digits(digits) {
        lemma_decimal_value_monotone(digits, k + 1);
        assert(digits.take(k + 1).drop_last() =~= digits.take(k));
        assert(digits.take(k + 1).last() == digits[k]);
    }
}

/// Parses a `usize` as `str::parse` does; `None` on any error.
pub fn parse_usize(s: &str) -> (r: Option<usize>)
    ensures
        match r {
            Some(n) => parsed_usize(s@) == Some(n as nat),
            None => parsed_usize(s@) is None,
        },
{
    let v = chars_of(s);
    let start: usize = if v.len() > 0 && v[0] == '+' { 1 } else { 0 };
    let ghost digits = unsigned_digits(s@);
    assert(digits =~= v@.skip(start as int));
    if start >= v.len() {
        assert(digits.len() == 0);
        return None;
    }
    let mut value: usize = 0;
    let mut i: usize = start;
    assert(digits.take(0) =~= Seq::<char>::empty());
    while i < v.len()
        invariant
            start <= i <= v@.len(),
            v@ == s@,
            digits == unsigned_digits(s@),
            digits == v@.skip(start as int),
            forall|j: int| 0 <= j < i - start ==> is_decimal_digit(#[trigger] digits[j]),
            value as nat == decimal_value(digits.take(i - start)),
        decreases v@.len() - i,
    {
        let c = v[i];
        assert(digits[i - start] == c);
        if !('0' <= c && c <= '9') {
            assert(!is_decimal_digit(digits[i - start]));
            assert(!all_decimal_digits(digits));
            return None;
        }
        let d = (c as u32 - '0' as u32) as usize;
        assert(digits.take(i - start + 1).drop_last() =~= digits.take(i - start));
        match value.checked_mul(10) {
            Some(m) => match m.checked_add(d) {
                Some(n) => {
                    value = n;
                },
                None => {
                    proof {
                        overflow_means_no_value(digits, (i - start) as int);
                    }
                    return None;
                },
            },
            None => {
                proof {
                    overflow_means_no_value(digits, (i - start) as int);
                }
                return None;
            },
        }
        i += 1;
    }
    assert(digits.take(digits.len() as int) =~= digits);
    assert(all_decimal_digits(digits));
    Some(value)
}


// ==========================================
// Collected mounts
// ==========================================

/// Something the mount collection tells the user.
#[derive(Debug)]
pub enum MountNotice {
    /// Penetration stopped before a prohibited directory, at `at`.
    PenetrationStopped { at: String },
    /// The target lies directly in a prohibited directory; only the file
    /// itself is mounted, read-only.
    TargetInProhibitedDirectory { path: String },
    /// A secondary directory is prohibited and is not mounted.
    SecondaryRefused { path: String },
    /// The Wine runner's root is prohibited and is not mounted.
    RunnerRootProhibited { root: String },
}

/// The mathematical form of a [`MountNotice`].
pub enum NoticeModel {
    PenetrationStopped(Seq<char>),
    TargetInProhibitedDirectory(Seq<char>),
    SecondaryRefused(Seq<char>),
    RunnerRootProhibited(Seq<char>),
}

impl View for MountNotice {
    type V = NoticeModel;

    open spec fn view(&self) -> NoticeModel {
        match self {
            MountNotice::PenetrationStopped { at } => NoticeModel::PenetrationStopped(at@),
            MountNotice::TargetInProhibitedDirectory { path } => NoticeModel::TargetInProhibitedDirectory(path@),
            MountNotice::SecondaryRefused { path } => NoticeModel::SecondaryRefused(path@),
            MountNotice::RunnerRootProhibited { root } => NoticeModel::RunnerRootProhibited(root@),
        }
    }
}

/// The views of a list of notices.
pub open spec fn notice_views(v: Seq<MountNotice>) -> Seq<NoticeModel> {
    v.map_values(|n: MountNotice| n@)
}

/// A `WINER_BIND` / `WINER_RO_BIND` entry with an empty side.
#[derive(Debug, PartialEq, Eq, Structural)]
pub enum MountConfigurationError {
    EmptyHostPath { read_only: bool },
    EmptyContainerPath { read_only: bool },
}

/// A bind list that could not be read, with what the collection had
/// already found: the directories to create for a `WINEPREFIX` kept inside
/// the sandbox home and the notices for the user.
#[derive(Debug)]
pub struct MountCollectionFailure {
    pub error: MountConfigurationError,
    pub prefix_directories_to_create: Vec<String>,
    pub notices: Vec<MountNotice>,
}

/// The mounts of a run, the directories to create for a `WINEPREFIX` kept
/// inside the sandbox, and the notices for the user.
pub struct MountCollection {
    pub mounts: Vec<MountSpecification>,
    pub prefix_directories_to_create: Vec<String>,
    pub notices: Vec<MountNotice>,
}

/// The mathematical form of a [`MountCollection`].
pub struct CollectionModel {
    pub mounts: Seq<MountModel>,
    pub create: Seq<Seq<char>>,
    pub notices: Seq<NoticeModel>,
}

impl View for MountCollection {
    type V = CollectionModel;

    open spec fn view(&self) -> CollectionModel {
        CollectionModel {
            mounts: mount_views(self.mounts@),
            create: string_views(self.prefix_directories_to_create@),
            notices: notice_views(self.notices@),
        }
    }
}

/// Climbs from `cur` at most `steps` levels, stopping before a prohibited
/// directory; also says whether it stopped for that reason.
pub open spec fn penetration_walk(cur: Seq<char>, steps: nat, home: Seq<char>) -> (Seq<char>, bool)
    decreases steps,
{
    if steps == 0 {
        (cur, false)
    } else {
        match path_parent(cur) {
            None => (cur, false),
            Some(p) => if is_prohibited_directory(p, home) {
                (cur, true)
            } else {
                penetration_walk(p, (steps - 1) as nat, home)
            },
        }
    }
}

/// The program lies directly in a prohibited directory (its parent is one).
pub open spec fn directly_in_prohibited_directory(exe: Seq<char>, home: Seq<char>) -> bool {
    match path_parent(exe) {
        Some(p) => is_prohibited_directory(p, home),
        None => false,
    }
}

/// The mount of a Windows program at penetration depth `depth`: depth 0
/// mounts the file alone, read-only; otherwise the directory `depth` levels
/// up (stopping before a prohibited directory) is mounted read-write, unless
/// that directory is itself prohibited or the program lies directly in a
/// prohibited directory, in which case only the file is mounted, read-only
/// and only if present, with a warning.
pub open spec fn primary_mounts(exe: Seq<char>, depth: nat, home: Seq<char>) -> (Seq<MountModel>, Seq<NoticeModel>) {
    if depth == 0 {
        (seq![same_place_mount(exe, true, false, false)], Seq::empty())
    } else {
        let (dir, stopped) = penetration_walk(exe, depth, home);
        let n1 = if stopped {
            seq![NoticeModel::PenetrationStopped(dir)]
        } else {
            Seq::<NoticeModel>::empty()
        };
        if is_prohibited_directory(dir, home) || directly_in_prohibited_directory(exe, home) {
            (seq![same_place_mount(exe, true, true, false)], n1.push(NoticeModel::TargetInProhibitedDirectory(exe)))
        } else {
            (seq![same_place_mount(dir, false, false, false)], n1)
        }
    }
}

/// The mounts of the directories of secondary files: each is mounted
/// read-write if present, unless it is prohibited (a notice) or lies in
/// the sandbox home.
pub open spec fn secondary_mounts(dirs: Seq<Seq<char>>, home: Seq<char>, sandbox_home: Seq<char>) -> (Seq<MountModel>, Seq<NoticeModel>)
    decreases dirs.len(),
{
    if dirs.len() == 0 {
        (Seq::empty(), Seq::empty())
    } else {
        let (m, n) = secondary_mounts(dirs.drop_last(), home, sandbox_home);
        let d = dirs.last();
        if is_prohibited_directory(d, home) {
            (m, n.push(NoticeModel::SecondaryRefused(d)))
        } else if !path_starts_with(d, sandbox_home) {
            (m.push(same_place_mount(d, false, true, false)), n)
        } else {
            (m, n)
        }
    }
}

/// The penetration depth: `WINER_PENETRATE` when it parses as a `usize`,
/// else 1.
pub open spec fn penetration_depth(pyramid: crate::core_data_structures::ConfigurationPyramid) -> nat {
    match parsed_usize(pyramid.resolved_value("WINER_PENETRATE"@, "1"@)) {
        Some(n) => n,
        None => 1,
    }
}

/// The mounts for the target: only a Windows program outside the sandbox
/// home is mounted, with the directories of its secondary files.
pub open spec fn target_mounts(context: SandboxContext, target: crate::core_data_structures::TargetModel, host: HostSnapshot) -> (Seq<MountModel>, Seq<NoticeModel>) {
    let home = context.path_buf_representing_host_home_directory@;
    let sandbox_home = host.absolute(context.path_buf_representing_sandbox_home_directory@);
    match target.category {
        CategoryModel::PhysicalWindowsExecutable(exe) => {
            let (pm, pn) = if path_starts_with(host.absolute(exe), sandbox_home) {
                (Seq::<MountModel>::empty(), Seq::<NoticeModel>::empty())
            } else {
                primary_mounts(exe, penetration_depth(context.configuration_pyramid_representing_all_layers), home)
            };
            let (sm, sn) = secondary_mounts(target.secondary_sources, home, sandbox_home);
            (pm + sm, pn + sn)
        },
        _ => (Seq::empty(), Seq::empty()),
    }
}

/// The `WINEPREFIX` part: a prefix outside the sandbox home is mounted
/// read-write (creating it on the host if needed); one inside it is a
/// directory to create.
pub open spec fn prefix_part(context: SandboxContext, host: HostSnapshot) -> (Seq<MountModel>, Seq<Seq<char>>) {
    let v = context.configuration_pyramid_representing_all_layers.resolved_value("WINEPREFIX"@, ""@);
    let sandbox_home = host.absolute(context.path_buf_representing_sandbox_home_directory@);
    if v.len() == 0 {
        (Seq::empty(), Seq::empty())
    } else {
        let p = host.absolute(v);
        if path_starts_with(p, sandbox_home) {
            (Seq::empty(), seq![p])
        } else {
            (seq![same_place_mount(p, false, false, true)], Seq::empty())
        }
    }
}

/// A Wine binary given as a path (not the plain `wine` from `PATH`).
pub open spec fn is_custom_engine_path(w: Seq<char>) -> bool {
    w != "wine"@ && (w.contains('/') || w.contains('\\'))
}

/// The Wine runner part: the root of a custom runner is mounted read-only,
/// unless it is prohibited (a notice).
pub open spec fn runner_part(context: SandboxContext, cli_wine: Option<Seq<char>>, host: HostSnapshot) -> (Seq<MountModel>, Seq<NoticeModel>) {
    let w = custom_wine_binary(context.configuration_pyramid_representing_all_layers, cli_wine);
    if is_custom_engine_path(w) {
        match runner_root_of(host.absolute(w)) {
            None => (Seq::empty(), Seq::empty()),
            Some(root) => if is_prohibited_directory(root, context.path_buf_representing_host_home_directory@) {
                (Seq::empty(), seq![NoticeModel::RunnerRootProhibited(root)])
            } else {
                (seq![same_place_mount(root, true, false, false)], Seq::empty())
            },
        }
    } else {
        (Seq::empty(), Seq::empty())
    }
}

/// One entry of a bind list, `host` or `host:container`: blank entries are
/// skipped, an empty side is an error, paths are made absolute.
pub open spec fn bind_entry(part: Seq<char>, read_only: bool, host: HostSnapshot) -> Result<Seq<MountModel>, MountConfigurationError> {
    let t = trim(part);
    if t.len() == 0 {
        Ok(Seq::empty())
    } else {
        let fields = split_on(t, ':');
        let h = trim(fields[0]);
        if h.len() == 0 {
            Err(MountConfigurationError::EmptyHostPath { read_only })
        } else if fields.len() > 1 && trim(fields[1]).len() == 0 {
            Err(MountConfigurationError::EmptyContainerPath { read_only })
        } else {
            let c = if fields.len() > 1 { trim(fields[1]) } else { h };
            Ok(seq![MountModel { source: host.absolute(h), destination: host.absolute(c), readonly: read_only, try_only: false, creation_allowed: false }])
        }
    }
}

/// The entries of a bind list, left to right; the first error stops it.
pub open spec fn bind_entries(parts: Seq<Seq<char>>, read_only: bool, host: HostSnapshot) -> Result<Seq<MountModel>, MountConfigurationError>
    decreases parts.len(),
{
    if parts.len() == 0 {
        Ok(Seq::empty())
    } else {
        match bind_entry(parts[0], read_only, host) {
            Err(e) => Err(e),
            Ok(m) => match bind_entries(parts.drop_first(), read_only, host) {
                Err(e) => Err(e),
                Ok(rest) => Ok(m + rest),
            },
        }
    }
}

/// The mounts of a comma-separated bind list.
pub open spec fn bind_mounts(list: Seq<char>, read_only: bool, host: HostSnapshot) -> Result<Seq<MountModel>, MountConfigurationError> {
    bind_entries(split_on(list, ','), read_only, host)
}

/// The sockets, fonts, Vulkan and DNS paths mounted when present.
pub open spec fn infrastructure_mounts(env: HostEnvironment, home: Seq<char>) -> Seq<MountModel> {
    let wayland = match (opt_view(env.wayland_display), opt_view(env.xdg_runtime_dir)) {
        (Some(w), Some(x)) => seq![same_place_mount(path_join(x, w), false, true, false)],
        _ => Seq::<MountModel>::empty(),
    };
    let sockets = match opt_view(env.xdg_runtime_dir) {
        Some(x) => seq![
            same_place_mount(path_join(x, "pipewire-0"@), false, true, false),
            same_place_mount(path_join(x, "pulse"@), false, true, false),
            same_place_mount(path_join(x, "bus"@), false, true, false),
            same_place_mount(path_join(x, "at-spi"@), false, true, false),
            same_place_mount(path_join(x, "gvfs"@), false, true, false),
        ],
        None => Seq::<MountModel>::empty(),
    };
    wayland + seq![same_place_mount("/tmp/.X11-unix"@, false, true, false)] + sockets + seq![
        same_place_mount("/usr/share/vulkan"@, true, true, false),
        same_place_mount("/etc/vulkan"@, true, true, false),
        same_place_mount("/etc/fonts"@, true, true, false),
        same_place_mount("/usr/share/fonts"@, true, true, false),
        same_place_mount("/usr/local/share/fonts"@, true, true, false),
        same_place_mount(path_join(home, ".local/share/fonts"@), true, true, false),
        same_place_mount("/run/systemd/resolve"@, true, true, false),
        same_place_mount("/run/NetworkManager"@, true, true, false),
        same_place_mount("/run/resolvconf"@, true, true, false),
    ]
}

/// Everything the mount collection yields, in order: the target's mounts,
/// the `WINEPREFIX` mount, the runner mount, `WINER_BIND`,
/// `WINER_RO_BIND`, then the infrastructure.  When a bind list cannot be
/// read, the error comes with the directories to create for the
/// `WINEPREFIX` and the notices found before the bind lists.
pub open spec fn collected_mounts(
    context: SandboxContext,
    target: crate::core_data_structures::TargetModel,
    cli_wine: Option<Seq<char>>,
    env: HostEnvironment,
    host: HostSnapshot,
) -> Result<CollectionModel, (MountConfigurationError, Seq<Seq<char>>, Seq<NoticeModel>)> {
    let pyramid = context.configuration_pyramid_representing_all_layers;
    let (tm, tn) = target_mounts(context, target, host);
    let (pm, pc) = prefix_part(context, host);
    let (rm, rn) = runner_part(context, cli_wine, host);
    match bind_mounts(pyramid.resolved_value("WINER_BIND"@, ""@), false, host) {
        Err(e) => Err((e, pc, tn + rn)),
        Ok(b) => match bind_mounts(pyramid.resolved_value("WINER_RO_BIND"@, ""@), true, host) {
            Err(e) => Err((e, pc, tn + rn)),
            Ok(rb) => Ok(CollectionModel {
                mounts: tm + pm + rm + b + rb + infrastructure_mounts(env, context.path_buf_representing_host_home_directory@),
                create: pc,
                notices: tn + rn,
            }),
        },
    }
}


fn push_mount(v: &mut Vec<MountSpecification>, m: MountSpecification)
    ensures
        mount_views(final(v)@) == mount_views(old(v)@).push(m@),
{
    let ghost before = v@;
    v.push(m);
    assert(mount_views(v@) =~= mount_views(before).push(m@));
}

fn push_notice(v: &mut Vec<MountNotice>, n: MountNotice)
    ensures
        notice_views(final(v)@) == notice_views(old(v)@).push(n@),
{
    let ghost before = v@;
    v.push(n);
    assert(notice_views(v@) =~= notice_views(before).push(n@));
}

fn append_mounts(v: &mut Vec<MountSpecification>, extra: Vec<MountSpecification>)
    ensures
        mount_views(final(v)@) == mount_views(old(v)@) + mount_views(extra@),
{
    let ghost before = mount_views(v@);
    let mut extra = extra;
    let ghost ev = mount_views(extra@);
    v.append(&mut extra);
    assert(mount_views(v@) =~= before + ev);
}

fn append_notices(v: &mut Vec<MountNotice>, extra: Vec<MountNotice>)
    ensures
        notice_views(final(v)@) == notice_views(old(v)@) + notice_views(extra@),
{
    let ghost before = notice_views(v@);
    let mut extra = extra;
    let ghost ev = notice_views(extra@);
    v.append(&mut extra);
    assert(notice_views(v@) =~= before + ev);
}

fn penetration_walk_exec(exe: &str, depth: usize, home: &str) -> (r: (String, bool))
    ensures
        (r.0@, r.1) == penetration_walk(exe@, depth as nat, home@),
{
    let mut cur = owned(exe);
    let mut k: usize = depth;
    let mut done = false;
    let mut stopped = false;
    while k > 0
        invariant
            done ==> k == 0,
            !done ==> !stopped,
            done ==> penetration_walk(exe@, depth as nat, home@) == (cur@, stopped),
            !done ==> penetration_walk(exe@, depth as nat, home@) == penetration_walk(cur@, k as nat, home@),
        decreases k,
    {
        match parent_path(cur.as_str()) {
            None => {
                done = true;
                stopped = false;
                k = 0;
            },
            Some(p) => {
                if determine_if_path_is_prohibited_shared_system_directory(p.as_str(), home) {
                    done = true;
                    stopped = true;
                    k = 0;
                } else {
                    cur = p;
                    k = k - 1;
                }
            },
        }
    }
    (cur, stopped)
}

fn primary_mounts_exec(exe: &str, depth: usize, home: &str) -> (r: (Vec<MountSpecification>, Vec<MountNotice>))
    ensures
        (mount_views(r.0@), notice_views(r.1@)) == primary_mounts(exe@, depth as nat, home@),
{
    let mut mounts: Vec<MountSpecification> = Vec::new();
    let mut notices: Vec<MountNotice> = Vec::new();
    if depth == 0 {
        push_mount(&mut mounts, same_place_mount_of(owned(exe), true, false, false));
        assert(notice_views(notices@) =~= Seq::<NoticeModel>::empty());
        return (mounts, notices);
    }
    let (dir, stopped) = penetration_walk_exec(exe, depth, home);
    if stopped {
        push_notice(&mut notices, MountNotice::PenetrationStopped { at: dir.clone() });
    }
    let directly = match parent_path(exe) {
        Some(p) => determine_if_path_is_prohibited_shared_system_directory(p.as_str(), home),
        None => false,
    };
    if determine_if_path_is_prohibited_shared_system_directory(dir.as_str(), home) || directly {
        push_notice(&mut notices, MountNotice::TargetInProhibitedDirectory { path: owned(exe) });
        push_mount(&mut mounts, same_place_mount_of(owned(exe), true, true, false));
    } else {
        push_mount(&mut mounts, same_place_mount_of(dir, false, false, false));
    }
    proof {
        let (d, st) = penetration_walk(exe@, depth as nat, home@);
        assert(d == dir@ && st == stopped);
        if !stopped {
            assert(notice_views(notices@) =~= primary_mounts(exe@, depth as nat, home@).1);
        } else {
            assert(notice_views(notices@) =~= primary_mounts(exe@, depth as nat, home@).1);
        }
        assert(mount_views(mounts@) =~= primary_mounts(exe@, depth as nat, home@).0);
    }
    (mounts, notices)
}

fn secondary_mounts_exec(dirs: &Vec<String>, home: &str, sandbox_home: &str) -> (r: (Vec<MountSpecification>, Vec<MountNotice>))
    ensures
        (mount_views(r.0@), notice_views(r.1@)) == secondary_mounts(string_views(dirs@), home@, sandbox_home@),
{
    let ghost ds = string_views(dirs@);
    let mut mounts: Vec<MountSpecification> = Vec::new();
    let mut notices: Vec<MountNotice> = Vec::new();
    let mut i: usize = 0;
    assert(ds.take(0) =~= Seq::<Seq<char>>::empty());
    assert(mount_views(mounts@) =~= Seq::<MountModel>::empty());
    assert(notice_views(notices@) =~= Seq::<NoticeModel>::empty());
    while i < dirs.len()
        invariant
            i <= dirs@.len(),
            ds == string_views(dirs@),
            (mount_views(mounts@), notice_views(notices@)) == secondary_mounts(ds.take(i as int), home@, sandbox_home@),
        decreases dirs@.len() - i,
    {
        let d = &dirs[i];
        assert(ds.take(i + 1).drop_last() =~= ds.take(i as int));
        assert(ds.take(i + 1).last() == d@);
        if determine_if_path_is_prohibited_shared_system_directory(d.as_str(), home) {
            push_notice(&mut notices, MountNotice::SecondaryRefused { path: d.clone() });
        } else if !path_has_prefix(d.as_str(), sandbox_home) {
            push_mount(&mut mounts, same_place_mount_of(d.clone(), false, true, false));
        }
        i += 1;
    }
    assert(ds.take(ds.len() as int) =~= ds);
    (mounts, notices)
}

fn target_mounts_exec(context: &SandboxContext, target: &TargetSpecification, sandbox_home: &str, host: &HostSnapshot) -> (r: (Vec<MountSpecification>, Vec<MountNotice>))
    requires
        sandbox_home@ == host.absolute(context.path_buf_representing_sandbox_home_directory@),
    ensures
        (mount_views(r.0@), notice_views(r.1@)) == target_mounts(*context, target@, *host),
{
    let home = context.path_buf_representing_host_home_directory.as_str();
    match &target.target_category_enum_representing_execution_type {
        crate::core_data_structures::TargetCategory::PhysicalWindowsExecutable { path_buf_representing_host_absolute_path } => {
            let exe = path_buf_representing_host_absolute_path.as_str();
            let abs_exe = host.absolute_of(exe);
            let (mut mounts, mut notices) = if path_has_prefix(abs_exe.as_str(), sandbox_home) {
                let m: Vec<MountSpecification> = Vec::new();
                let n: Vec<MountNotice> = Vec::new();
                assert(mount_views(m@) =~= Seq::<MountModel>::empty());
                assert(notice_views(n@) =~= Seq::<NoticeModel>::empty());
                (m, n)
            } else {
                let text = context.configuration_pyramid_representing_all_layers.resolve_configuration_value("WINER_PENETRATE", "1");
                let depth = match parse_usize(text.as_str()) {
                    Some(n) => n,
                    None => 1,
                };
                primary_mounts_exec(exe, depth, home)
            };
            let (sm, sn) = secondary_mounts_exec(&target.vector_of_path_bufs_representing_secondary_penetration_mount_sources, home, sandbox_home);
            append_mounts(&mut mounts, sm);
            append_notices(&mut notices, sn);
            (mounts, notices)
        },
        _ => {
            let m: Vec<MountSpecification> = Vec::new();
            let n: Vec<MountNotice> = Vec::new();
            assert(mount_views(m@) =~= Seq::<MountModel>::empty());
            assert(notice_views(n@) =~= Seq::<NoticeModel>::empty());
            (m, n)
        },
    }
}

fn prefix_part_exec(context: &SandboxContext, sandbox_home: &str, host: &HostSnapshot) -> (r: (Vec<MountSpecification>, Vec<String>))
    requires
        sandbox_home@ == host.absolute(context.path_buf_representing_sandbox_home_directory@),
    ensures
        (mount_views(r.0@), string_views(r.1@)) == prefix_part(*context, *host),
{
    let v = context.configuration_pyramid_representing_all_layers.resolve_configuration_value("WINEPREFIX", "");
    let mut mounts: Vec<MountSpecification> = Vec::new();
    let mut create: Vec<String> = Vec::new();
    if chars_of(v.as_str()).len() > 0 {
        let p = host.absolute_of(v.as_str());
        if path_has_prefix(p.as_str(), sandbox_home) {
            create.push(p);
        } else {
            push_mount(&mut mounts, same_place_mount_of(p, false, false, true));
        }
    }
    assert((mount_views(mounts@), string_views(create@)) =~~= prefix_part(*context, *host));
    (mounts, create)
}

pub(crate) fn is_custom_engine_path_exec(w: &str) -> (r: bool)
    ensures
        r == is_custom_engine_path(w@),
{
    let wv = chars_of(w);
    !str_equal(w, "wine") && (contains_char(&wv, '/') || contains_char(&wv, '\\'))
}

fn runner_part_exec(context: &SandboxContext, cli_wine: &Option<String>, host: &HostSnapshot) -> (r: (Vec<MountSpecification>, Vec<MountNotice>))
    ensures
        (mount_views(r.0@), notice_views(r.1@)) == runner_part(*context, opt_view(*cli_wine), *host),
{
    let mut mounts: Vec<MountSpecification> = Vec::new();
    let mut notices: Vec<MountNotice> = Vec::new();
    let w = custom_wine_binary_of(&context.configuration_pyramid_representing_all_layers, cli_wine);
    if is_custom_engine_path_exec(w.as_str()) {
        let abs = host.absolute_of(w.as_str());
        match resolve_wine_runner_root_directory_from_binary_path(abs.as_str()) {
            None => {},
            Some(root) => {
                if determine_if_path_is_prohibited_shared_system_directory(root.as_str(), context.path_buf_representing_host_home_directory.as_str()) {
                    push_notice(&mut notices, MountNotice::RunnerRootProhibited { root });
                } else {
                    push_mount(&mut mounts, same_place_mount_of(root, true, false, false));
                }
            },
        }
    }
    assert((mount_views(mounts@), notice_views(notices@)) =~~= runner_part(*context, opt_view(*cli_wine), *host));
    (mounts, notices)
}

fn bind_entry_exec(part: &[char], read_only: bool, host: &HostSnapshot) -> (r: Result<Vec<MountSpecification>, MountConfigurationError>)
    ensures
        match r {
            Ok(m) => bind_entry(part@, read_only, *host) == Ok::<Seq<MountModel>, MountConfigurationError>(mount_views(m@)),
            Err(e) => bind_entry(part@, read_only, *host) == Err::<Seq<MountModel>, MountConfigurationError>(e),
        },
{
    let mut out: Vec<MountSpecification> = Vec::new();
    let t = trim_chars(part);
    if t.len() == 0 {
        assert(mount_views(out@) =~= Seq::<MountModel>::empty());
        return Ok(out);
    }
    let fields = split_chars(&t, ':');
    proof {
        crate::text::lemma_split_on_nonempty(t@, ':');
    }
    assert(seqs_of(fields@).len() == fields@.len());
    assert(fields@[0]@ == seqs_of(fields@)[0]);
    let h = trim_chars(&fields[0]);
    if h.len() == 0 {
        return Err(MountConfigurationError::EmptyHostPath { read_only });
    }
    let c = if fields.len() > 1 {
        assert(fields@[1]@ == seqs_of(fields@)[1]);
        let c = trim_chars(&fields[1]);
        if c.len() == 0 {
            return Err(MountConfigurationError::EmptyContainerPath { read_only });
        }
        c
    } else {
        h.clone()
    };
    let hs = string_from_chars(&h);
    let cs = string_from_chars(&c);
    let m = MountSpecification {
        path_buf_representing_host_source: host.absolute_of(hs.as_str()),
        path_buf_representing_container_destination: host.absolute_of(cs.as_str()),
        boolean_flag_indicating_readonly: read_only,
        boolean_flag_indicating_try_only: false,
        boolean_flag_indicating_host_directory_creation_allowed: false,
    };
    push_mount(&mut out, m);
    assert(mount_views(out@) =~= bind_entry(part@, read_only, *host)->Ok_0);
    Ok(out)
}

/// The mounts of a comma-separated `host[:container]` list.
pub fn bind_mounts_of(list: &str, read_only: bool, host: &HostSnapshot) -> (r: Result<Vec<MountSpecification>, MountConfigurationError>)
    ensures
        match r {
            Ok(m) => bind_mounts(list@, read_only, *host) == Ok::<Seq<MountModel>, MountConfigurationError>(mount_views(m@)),
            Err(e) => bind_mounts(list@, read_only, *host) == Err::<Seq<MountModel>, MountConfigurationError>(e),
        },
{
    let lv = chars_of(list);
    let parts = split_chars(&lv, ',');
    let ghost ps = seqs_of(parts@);
    let mut out: Vec<MountSpecification> = Vec::new();
    let mut i: usize = 0;
    assert(ps.skip(0) =~= ps);
    assert(mount_views(out@) =~= Seq::<MountModel>::empty());
    while i < parts.len()
        invariant
            i <= parts@.len(),
            ps == seqs_of(parts@),
            ps == split_on(list@, ','),
            bind_mounts(list@, read_only, *host) == match bind_entries(ps.skip(i as int), read_only, *host) {
                Ok(rest) => Ok::<Seq<MountModel>, MountConfigurationError>(mount_views(out@) + rest),
                Err(e) => Err::<Seq<MountModel>, MountConfigurationError>(e),
            },
        decreases parts@.len() - i,
    {
        assert(ps.skip(i as int).drop_first() =~= ps.skip(i + 1));
        assert(ps.skip(i as int)[0] == parts@[i as int]@);
        match bind_entry_exec(&parts[i], read_only, host) {
            Err(e) => {
                return Err(e);
            },
            Ok(m) => {
                let ghost before = mount_views(out@);
                let ghost mv = mount_views(m@);
                append_mounts(&mut out, m);
                proof {
                    match bind_entries(ps.skip(i + 1), read_only, *host) {
                        Ok(rest) => {
                            assert(before + (mv + rest) =~= mount_views(out@) + rest);
                        },
                        Err(e) => {},
                    }
                }
            },
        }
        i += 1;
    }
    assert(ps.skip(ps.len() as int) =~= Seq::<Seq<char>>::empty());
    assert(mount_views(out@) + Seq::<MountModel>::empty() =~= mount_views(out@));
    Ok(out)
}

fn infrastructure_mounts_exec(env: &HostEnvironment, home: &str) -> (r: Vec<MountSpecification>)
    ensures
        mount_views(r@) == infrastructure_mounts(*env, home@),
{
    let mut v: Vec<MountSpecification> = Vec::new();
    match (&env.wayland_display, &env.xdg_runtime_dir) {
        (Some(w), Some(x)) => {
            push_mount(&mut v, same_place_mount_of(join_path(x.as_str(), w.as_str()), false, true, false));
        },
        _ => {},
    }
    push_mount(&mut v, same_place_mount_of(owned("/tmp/.X11-unix"), false, true, false));
    match &env.xdg_runtime_dir {
        Some(x) => {
            push_mount(&mut v, same_place_mount_of(join_path(x.as_str(), "pipewire-0"), false, true, false));
            push_mount(&mut v, same_place_mount_of(join_path(x.as_str(), "pulse"), false, true, false));
            push_mount(&mut v, same_place_mount_of(join_path(x.as_str(), "bus"), false, true, false));
            push_mount(&mut v, same_place_mount_of(join_path(x.as_str(), "at-spi"), false, true, false));
            push_mount(&mut v, same_place_mount_of(join_path(x.as_str(), "gvfs"), false, true, false));
        },
        None => {},
    }
    push_mount(&mut v, same_place_mount_of(owned("/usr/share/vulkan"), true, true, false));
    push_mount(&mut v, same_place_mount_of(owned("/etc/vulkan"), true, true, false));
    push_mount(&mut v, same_place_mount_of(owned("/etc/fonts"), true, true, false));
    push_mount(&mut v, same_place_mount_of(owned("/usr/share/fonts"), true, true, false));
    push_mount(&mut v, same_place_mount_of(owned("/usr/local/share/fonts"), true, true, false));
    push_mount(&mut v, same_place_mount_of(join_path(home, ".local/share/fonts"), true, true, false));
    push_mount(&mut v, same_place_mount_of(owned("/run/systemd/resolve"), true, true, false));
    push_mount(&mut v, same_place_mount_of(owned("/run/NetworkManager"), true, true, false));
    push_mount(&mut v, same_place_mount_of(owned("/run/resolvconf"), true, true, false));
    assert(mount_views(v@) =~= infrastructure_mounts(*env, home@));
    v
}

/// The view of a collection result.
pub open spec fn collection_view(r: Result<MountCollection, MountCollectionFailure>) -> Result<
    CollectionModel,
    (MountConfigurationError, Seq<Seq<char>>, Seq<NoticeModel>),
> {
    match r {
        Ok(c) => Ok(c@),
        Err(f) => Err((f.error, string_views(f.prefix_directories_to_create@), notice_views(f.notices@))),
    }
}

/// Collects every mount of a run.  Host paths are made absolute through
/// the snapshot; see [`collected_mounts`] for the order and the rules.
pub fn collect_mount_specifications(
    context: &SandboxContext,
    target: &TargetSpecification,
    cli_wine: &Option<String>,
    env: &HostEnvironment,
    host: &HostSnapshot,
) -> (r: Result<MountCollection, MountCollectionFailure>)
    ensures
        collection_view(r) == collected_mounts(*context, target@, opt_view(*cli_wine), *env, *host),
{
    let pyramid = &context.configuration_pyramid_representing_all_layers;
    let sandbox_home = host.absolute_of(context.path_buf_representing_sandbox_home_directory.as_str());
    let (mut mounts, mut notices) = target_mounts_exec(context, target, sandbox_home.as_str(), host);
    let (pm, create) = prefix_part_exec(context, sandbox_home.as_str(), host);
    append_mounts(&mut mounts, pm);
    let (rm, rn) = runner_part_exec(context, cli_wine, host);
    append_mounts(&mut mounts, rm);
    append_notices(&mut notices, rn);
    let binds = pyramid.resolve_configuration_value("WINER_BIND", "");
    let b = match bind_mounts_of(binds.as_str(), false, host) {
        Ok(b) => b,
        Err(e) => {
            return Err(MountCollectionFailure { error: e, prefix_directories_to_create: create, notices });
        },
    };
    append_mounts(&mut mounts, b);
    let ro_binds = pyramid.resolve_configuration_value("WINER_RO_BIND", "");
    let rb = match bind_mounts_of(ro_binds.as_str(), true, host) {
        Ok(b) => b,
        Err(e) => {
            return Err(MountCollectionFailure { error: e, prefix_directories_to_create: create, notices });
        },
    };
    append_mounts(&mut mounts, rb);
    append_mounts(&mut mounts, infrastructure_mounts_exec(env, context.path_buf_representing_host_home_directory.as_str()));
    let r = MountCollection { mounts, prefix_directories_to_create: create, notices };
    assert(collection_view(Ok(r)) =~~= collected_mounts(*context, target@, opt_view(*cli_wine), *env, *host));
    Ok(r)
}


// ==========================================
// What the host must be asked for the collection
// ==========================================

/// The paths one bind entry makes absolute.
pub open spec fn bind_entry_queries(part: Seq<char>) -> Seq<Seq<char>> {
    let t = trim(part);
    if t.len() == 0 {
        Seq::empty()
    } else {
        let f = split_on(t, ':');
        seq![trim(f[0])] + (if f.len() > 1 {
            seq![trim(f[1])]
        } else {
            Seq::<Seq<char>>::empty()
        })
    }
}

/// The paths a bind list makes absolute.
pub open spec fn bind_list_queries(parts: Seq<Seq<char>>) -> Seq<Seq<char>>
    decreases parts.len(),
{
    if parts.len() == 0 {
        Seq::empty()
    } else {
        bind_list_queries(parts.drop_last()) + bind_entry_queries(parts.last())
    }
}

/// The host paths whose facts the mount collection reads.
pub open spec fn collection_queries(context: SandboxContext, target: crate::core_data_structures::TargetModel, cli_wine: Option<Seq<char>>) -> Seq<Seq<char>> {
    let pyramid = context.configuration_pyramid_representing_all_layers;
    let prefix = pyramid.resolved_value("WINEPREFIX"@, ""@);
    let w = custom_wine_binary(pyramid, cli_wine);
    seq![context.path_buf_representing_sandbox_home_directory@] + (match target.category {
        CategoryModel::PhysicalWindowsExecutable(exe) => seq![exe],
        _ => Seq::<Seq<char>>::empty(),
    }) + (if prefix.len() > 0 {
        seq![prefix]
    } else {
        Seq::<Seq<char>>::empty()
    }) + (if is_custom_engine_path(w) {
        seq![w]
    } else {
        Seq::<Seq<char>>::empty()
    }) + bind_list_queries(split_on(pyramid.resolved_value("WINER_BIND"@, ""@), ','))
        + bind_list_queries(split_on(pyramid.resolved_value("WINER_RO_BIND"@, ""@), ','))
}

fn push_bind_queries(r: &mut Vec<String>, list: &str)
    ensures
        string_views(final(r)@) == string_views(old(r)@) + bind_list_queries(split_on(list@, ',')),
{
    let lv = chars_of(list);
    let parts = split_chars(&lv, ',');
    let ghost ps = seqs_of(parts@);
    let ghost start = string_views(r@);
    let mut i: usize = 0;
    assert(ps.take(0) =~= Seq::<Seq<char>>::empty());
    assert(start + bind_list_queries(ps.take(0)) =~= start);
    while i < parts.len()
        invariant
            i <= parts@.len(),
            ps == seqs_of(parts@),
            ps == split_on(list@, ','),
            string_views(r@) == start + bind_list_queries(ps.take(i as int)),
        decreases parts@.len() - i,
    {
        assert(ps.take(i + 1).drop_last() =~= ps.take(i as int));
        assert(ps.take(i + 1).last() == parts@[i as int]@);
        let ghost before = string_views(r@);
        let t = trim_chars(&parts[i]);
        if t.len() > 0 {
            let f = split_chars(&t, ':');
            proof {
                crate::text::lemma_split_on_nonempty(t@, ':');
            }
            assert(seqs_of(f@).len() == f@.len());
            assert(f@[0]@ == seqs_of(f@)[0]);
            r.push(string_from_chars(&trim_chars(&f[0])));
            if f.len() > 1 {
                assert(f@[1]@ == seqs_of(f@)[1]);
                r.push(string_from_chars(&trim_chars(&f[1])));
            }
        }
        assert(string_views(r@) =~= before + bind_entry_queries(parts@[i as int]@));
        i += 1;
    }
    assert(ps.take(ps.len() as int) =~= ps);
}

/// The host paths whose facts the mount collection reads.
pub fn collection_host_queries(context: &SandboxContext, target: &TargetSpecification, cli_wine: &Option<String>) -> (r: Vec<String>)
    ensures
        string_views(r@) == collection_queries(*context, target@, opt_view(*cli_wine)),
{
    let pyramid = &context.configuration_pyramid_representing_all_layers;
    let mut r: Vec<String> = Vec::new();
    r.push(context.path_buf_representing_sandbox_home_directory.clone());
    match &target.target_category_enum_representing_execution_type {
        crate::core_data_structures::TargetCategory::PhysicalWindowsExecutable { path_buf_representing_host_absolute_path } => {
            r.push(path_buf_representing_host_absolute_path.clone());
        },
        _ => {},
    }
    let prefix = pyramid.resolve_configuration_value("WINEPREFIX", "");
    if chars_of(prefix.as_str()).len() > 0 {
        r.push(prefix);
    }
    let w = custom_wine_binary_of(pyramid, cli_wine);
    if is_custom_engine_path_exec(w.as_str()) {
        r.push(w);
    }
    let ghost mid = string_views(r@);
    assert(mid =~= collection_queries(*context, target@, opt_view(*cli_wine)).take(mid.len() as int)) by {
        assert(collection_queries(*context, target@, opt_view(*cli_wine)) =~= mid
            + bind_list_queries(split_on(pyramid.resolved_value("WINER_BIND"@, ""@), ','))
            + bind_list_queries(split_on(pyramid.resolved_value("WINER_RO_BIND"@, ""@), ',')));
    }
    let binds = pyramid.resolve_configuration_value("WINER_BIND", "");
    push_bind_queries(&mut r, binds.as_str());
    let ro_binds = pyramid.resolve_configuration_value("WINER_RO_BIND", "");
    push_bind_queries(&mut r, ro_binds.as_str());
    assert(string_views(r@) =~= collection_queries(*context, target@, opt_view(*cli_wine)));
    r
}

// ==========================================
// Healing the mounts
// ==========================================

/// The length of a string in UTF-8 bytes (what `str::len` counts).
pub open spec fn byte_len(s: Seq<char>) -> usize {
    encode_utf8(s).len() as usize
}

/// The strings are in non-decreasing order of byte length.
pub open spec fn sorted_by_byte_len(v: Seq<Seq<char>>) -> bool {
    forall|i: int, j: int| 0 <= i < j < v.len() ==> byte_len(#[trigger] v[i]) <= byte_len(#[trigger] v[j])
}

/// The first mount, in order, whose source is missing although it is
/// neither optional nor creatable.
pub open spec fn first_missing_required_source(mounts: Seq<MountModel>, host: HostSnapshot) -> Option<Seq<char>>
    decreases mounts.len(),
{
    if mounts.len() == 0 {
        None
    } else if !host.path_exists(mounts[0].source) && !mounts[0].try_only && !mounts[0].creation_allowed {
        Some(mounts[0].source)
    } else {
        first_missing_required_source(mounts.drop_first(), host)
    }
}

/// A mount whose source is missing although it is neither optional nor
/// creatable.
pub open spec fn missing_required(m: MountModel, host: HostSnapshot) -> bool {
    !host.path_exists(m.source) && !m.try_only && !m.creation_allowed
}

/// The mounts before the first one whose required source is missing (all
/// of them when there is none): the ones healing gets to.
pub open spec fn mounts_before_first_missing(mounts: Seq<MountModel>, host: HostSnapshot) -> Seq<MountModel>
    decreases mounts.len(),
{
    if mounts.len() == 0 {
        Seq::empty()
    } else if missing_required(mounts[0], host) {
        Seq::empty()
    } else {
        seq![mounts[0]] + mounts_before_first_missing(mounts.drop_first(), host)
    }
}

proof fn lemma_mounts_before_first_missing_step(ms: Seq<MountModel>, i: int, host: HostSnapshot)
    requires
        0 <= i < ms.len(),
        !missing_required(ms[i], host),
        mounts_before_first_missing(ms, host) == ms.take(i) + mounts_before_first_missing(ms.skip(i), host),
    ensures
        mounts_before_first_missing(ms, host) == ms.take(i + 1) + mounts_before_first_missing(ms.skip(i + 1), host),
{
    assert(ms.skip(i)[0] == ms[i]);
    assert(ms.skip(i).drop_first() =~= ms.skip(i + 1));
    assert(ms.take(i) + (seq![ms[i]] + mounts_before_first_missing(ms.skip(i + 1), host)) =~= ms.take(i + 1)
        + mounts_before_first_missing(ms.skip(i + 1), host));
}

/// The mounts whose source exists.
pub open spec fn present_mounts(mounts: Seq<MountModel>, host: HostSnapshot) -> Seq<MountModel> {
    mounts.filter(|m: MountModel| host.path_exists(m.source))
}

/// The sources that the host should create before healing: missing,
/// required and creatable.
pub open spec fn sources_to_create(mounts: Seq<MountModel>, host: HostSnapshot) -> Seq<Seq<char>>
    decreases mounts.len(),
{
    if mounts.len() == 0 {
        Seq::empty()
    } else {
        let rest = sources_to_create(mounts.drop_last(), host);
        let m = mounts.last();
        if !host.path_exists(m.source) && !m.try_only && m.creation_allowed {
            rest.push(m.source)
        } else {
            rest
        }
    }
}

/// The sandbox-home mount points for the present mounts, in order.
pub open spec fn mount_points_of(mounts: Seq<MountModel>, home: Seq<char>, sandbox_home: Seq<char>, host: HostSnapshot) -> Seq<Seq<char>>
    decreases mounts.len(),
{
    if mounts.len() == 0 {
        Seq::empty()
    } else {
        let m = mounts.last();
        mount_points_of(mounts.drop_last(), home, sandbox_home, host) + option_points(
            sandbox_mount_point(m.source, home, sandbox_home, true, host.is_directory(m.source)),
        )
    }
}

/// A list holding the value of an option.
pub open spec fn option_points(o: Option<Seq<char>>) -> Seq<Seq<char>> {
    match o {
        Some(x) => seq![x],
        None => Seq::empty(),
    }
}

/// The directories bubblewrap must create for the given mounts.
pub open spec fn needed_directories(mounts: Seq<MountModel>, host: HostSnapshot) -> Set<Seq<char>>
    decreases mounts.len(),
{
    if mounts.len() == 0 {
        Set::empty()
    } else {
        let m = mounts.last();
        needed_directories(mounts.drop_last(), host).union(
            non_system_parent_paths(m.destination, host.path_exists(m.destination) && host.is_directory(m.destination)).to_set(),
        )
    }
}

/// A source that must exist is missing; the mount points of the present
/// mounts before it are still to be created in the sandbox home.
#[derive(Debug)]
pub struct MissingMountSource {
    pub path: String,
    pub sandbox_mount_points: Vec<String>,
}

/// The healed mounts: the directories bubblewrap creates (shortest first),
/// the mounts that remain, and the mount points to create in the sandbox
/// home.
pub struct HealedMounts {
    pub sorted_directories: Vec<String>,
    pub mounts: Vec<MountSpecification>,
    pub sandbox_mount_points: Vec<String>,
}

/// The sources to create on the host before healing: those of the mounts
/// healing gets to, up to the first required source that is missing.
pub fn mount_sources_to_create(mounts: &Vec<MountSpecification>, host: &HostSnapshot) -> (r: Vec<String>)
    ensures
        string_views(r@) == sources_to_create(mounts_before_first_missing(mount_views(mounts@), *host), *host),
{
    let ghost ms = mount_views(mounts@);
    let mut r: Vec<String> = Vec::new();
    let mut i: usize = 0;
    assert(ms.take(0) =~= Seq::<MountModel>::empty());
    assert(ms.skip(0) =~= ms);
    assert(mounts_before_first_missing(ms, *host) =~= ms.take(0) + mounts_before_first_missing(ms.skip(0), *host));
    while i < mounts.len()
        invariant
            i <= mounts@.len(),
            ms == mount_views(mounts@),
            string_views(r@) == sources_to_create(ms.take(i as int), *host),
            mounts_before_first_missing(ms, *host) == ms.take(i as int) + mounts_before_first_missing(ms.skip(i as int), *host),
        decreases mounts@.len() - i,
    {
        assert(ms.take(i + 1).drop_last() =~= ms.take(i as int));
        assert(ms.take(i + 1).last() == mounts@[i as int]@);
        let m = &mounts[i];
        assert(ms[i as int] == m@);
        if !host.exists_at(m.path_buf_representing_host_source.as_str()) && !m.boolean_flag_indicating_try_only
            && !m.boolean_flag_indicating_host_directory_creation_allowed {
            assert(ms.skip(i as int)[0] == ms[i as int]);
            assert(mounts_before_first_missing(ms, *host) =~= ms.take(i as int));
            return r;
        }
        proof {
            lemma_mounts_before_first_missing_step(ms, i as int, *host);
        }
        if !host.exists_at(m.path_buf_representing_host_source.as_str()) && !m.boolean_flag_indicating_try_only
            && m.boolean_flag_indicating_host_directory_creation_allowed {
            let ghost before = string_views(r@);
            r.push(m.path_buf_representing_host_source.clone());
            assert(string_views(r@) =~= before.push(m@.source));
        }
        i += 1;
    }
    assert(ms.take(ms.len() as int) =~= ms);
    assert(ms.skip(ms.len() as int) =~= Seq::<MountModel>::empty());
    assert(mounts_before_first_missing(ms, *host) =~= ms);
    r
}

fn insert_by_byte_len(r: &mut Vec<String>, x: String)
    requires
        sorted_by_byte_len(string_views(old(r)@)),
        string_views(old(r)@).no_duplicates(),
        !string_views(old(r)@).contains(x@),
    ensures
        sorted_by_byte_len(string_views(final(r)@)),
        string_views(final(r)@).no_duplicates(),
        string_views(final(r)@).to_set() == string_views(old(r)@).to_set().insert(x@),
{
    let xl = x.as_str().len();
    let ghost old_v = string_views(r@);
    let mut k: usize = 0;
    while k < r.len() && r[k].as_str().len() <= xl
        invariant
            k <= r@.len(),
            old_v == string_views(r@),
            xl == byte_len(x@),
            forall|j: int| 0 <= j < k ==> byte_len(#[trigger] old_v[j]) <= xl,
        decreases r@.len() - k,
    {
        assert(old_v[k as int] == r@[k as int]@);
        k += 1;
    }
    if k < r.len() {
        assert(old_v[k as int] == r@[k as int]@);
    }
    let ghost xv = x@;
    r.insert(k, x);
    let ghost nv = string_views(r@);
    assert(nv =~= old_v.insert(k as int, xv));
    assert forall|i: int, j: int| 0 <= i < j < nv.len() implies byte_len(#[trigger] nv[i]) <= byte_len(#[trigger] nv[j]) by {
        if j < k {
            assert(nv[i] == old_v[i] && nv[j] == old_v[j]);
        } else if j == k {
            assert(nv[i] == old_v[i]);
        } else if i == k {
            assert(nv[j] == old_v[j - 1]);
            assert(byte_len(old_v[k as int]) > xl);
            if j - 1 > k {
                assert(byte_len(old_v[k as int]) <= byte_len(old_v[j - 1]));
            }
        } else if i < k {
            assert(nv[i] == old_v[i] && nv[j] == old_v[j - 1]);
            if i < j - 1 {
                assert(byte_len(old_v[i]) <= byte_len(old_v[j - 1]));
            }
        } else {
            assert(nv[i] == old_v[i - 1] && nv[j] == old_v[j - 1]);
        }
    }
    assert forall|i: int, j: int| 0 <= i < nv.len() && 0 <= j < nv.len() && i != j implies nv[i] != nv[j] by {
        if i != k && j != k {
            let oi = if i < k { i } else { i - 1 };
            let oj = if j < k { j } else { j - 1 };
            assert(nv[i] == old_v[oi] && nv[j] == old_v[oj]);
        } else if i == k {
            let oj = if j < k { j } else { j - 1 };
            assert(nv[j] == old_v[oj]);
            assert(old_v.contains(old_v[oj]));
        } else {
            let oi = if i < k { i } else { i - 1 };
            assert(nv[i] == old_v[oi]);
            assert(old_v.contains(old_v[oi]));
        }
    }
    assert(nv.to_set() =~= old_v.to_set().insert(xv)) by {
        assert forall|y: Seq<char>| nv.contains(y) <==> old_v.contains(y) || y == xv by {
            if nv.contains(y) {
                let i = choose|i: int| 0 <= i < nv.len() && nv[i] == y;
                if i < k {
                    assert(old_v[i] == y);
                } else if i > k {
                    assert(old_v[i - 1] == y);
                }
            }
            if old_v.contains(y) {
                let i = choose|i: int| 0 <= i < old_v.len() && old_v[i] == y;
                if i < k {
                    assert(nv[i] == y);
                } else {
                    assert(nv[i + 1] == y);
                }
            }
            if y == xv {
                assert(nv[k as int] == y);
            }
        }
    }
}

/// Sorts distinct strings by byte length.
pub fn sort_by_byte_length(v: Vec<String>) -> (r: Vec<String>)
    requires
        string_views(v@).no_duplicates(),
    ensures
        sorted_by_byte_len(string_views(r@)),
        string_views(r@).no_duplicates(),
        string_views(r@).to_set() == string_views(v@).to_set(),
{
    let ghost vs = string_views(v@);
    let mut r: Vec<String> = Vec::new();
    let mut i: usize = 0;
    assert(vs.take(0).to_set() =~= Set::<Seq<char>>::empty());
    assert(string_views(r@).to_set() =~= Set::<Seq<char>>::empty());
    while i < v.len()
        invariant
            i <= v@.len(),
            vs == string_views(v@),
            vs.no_duplicates(),
            sorted_by_byte_len(string_views(r@)),
            string_views(r@).no_duplicates(),
            string_views(r@).to_set() == vs.take(i as int).to_set(),
        decreases v@.len() - i,
    {
        let x = v[i].clone();
        assert(vs[i as int] == x@);
        assert(!string_views(r@).contains(x@)) by {
            if string_views(r@).contains(x@) {
                assert(string_views(r@).to_set().contains(x@));
                assert(vs.take(i as int).contains(x@));
                let j = choose|j: int| 0 <= j < vs.take(i as int).len() && vs.take(i as int)[j] == x@;
                assert(vs[j] == vs[i as int]);
            }
        }
        insert_by_byte_len(&mut r, x);
        proof {
            vs.take(i as int).lemma_push_to_set_commute(vs[i as int]);
            assert(vs.take(i + 1) =~= vs.take(i as int).push(vs[i as int]));
        }
        i += 1;
    }
    assert(vs.take(vs.len() as int) =~= vs);
    r
}

/// The view of a healing result.
pub open spec fn healed_view(r: Result<HealedMounts, MissingMountSource>) -> Result<
    (Seq<Seq<char>>, Seq<MountModel>, Seq<Seq<char>>),
    (Seq<char>, Seq<Seq<char>>),
> {
    match r {
        Ok(h) => Ok((string_views(h.sorted_directories@), mount_views(h.mounts@), string_views(h.sandbox_mount_points@))),
        Err(e) => Err((e.path@, string_views(e.sandbox_mount_points@))),
    }
}

/// Keeps the mounts whose source exists (after the creatable sources were
/// created), fails on the first required source that is missing, and lists
/// the directories bubblewrap must create — each once, shortest (in bytes)
/// first — and the mount points to create in the sandbox home.
pub fn resolve_and_heal_mounts(
    mounts: Vec<MountSpecification>,
    context: &SandboxContext,
    host: &HostSnapshot,
) -> (r: Result<HealedMounts, MissingMountSource>)
    ensures
        match first_missing_required_source(mount_views(mounts@), *host) {
            Some(p) => healed_view(r) == Err::<(Seq<Seq<char>>, Seq<MountModel>, Seq<Seq<char>>), (Seq<char>, Seq<Seq<char>>)>(
                (
                    p,
                    mount_points_of(
                        present_mounts(mounts_before_first_missing(mount_views(mounts@), *host), *host),
                        context.path_buf_representing_host_home_directory@,
                        context.path_buf_representing_sandbox_home_directory@,
                        *host,
                    ),
                ),
            ),
            None => r is Ok,
        },
        r matches Ok(h) ==> {
            &&& mount_views(h.mounts@) == present_mounts(mount_views(mounts@), *host)
            &&& string_views(h.sandbox_mount_points@) == mount_points_of(
                present_mounts(mount_views(mounts@), *host),
                context.path_buf_representing_host_home_directory@,
                context.path_buf_representing_sandbox_home_directory@,
                *host,
            )
            &&& string_views(h.sorted_directories@).no_duplicates()
            &&& sorted_by_byte_len(string_views(h.sorted_directories@))
            &&& string_views(h.sorted_directories@).to_set() == needed_directories(
                present_mounts(mount_views(mounts@), *host),
                *host,
            )
        },
{
    let ghost ms = mount_views(mounts@);
    let home = context.path_buf_representing_host_home_directory.as_str();
    let sandbox_home = context.path_buf_representing_sandbox_home_directory.as_str();
    let mut kept: Vec<MountSpecification> = Vec::new();
    let mut points: Vec<String> = Vec::new();
    let mut dirs: Vec<String> = Vec::new();
    let mut i: usize = 0;
    assert(ms.take(0) =~= Seq::<MountModel>::empty());
    assert(ms.skip(0) =~= ms);
    assert(mounts_before_first_missing(ms, *host) =~= ms.take(0) + mounts_before_first_missing(ms.skip(0), *host));
    assert(string_views(dirs@).to_set() =~= Set::<Seq<char>>::empty());
    assert(present_mounts(ms.take(0), *host) =~= Seq::<MountModel>::empty());
    assert(mount_views(kept@) =~= Seq::<MountModel>::empty());
    assert(string_views(points@) =~= Seq::<Seq<char>>::empty());
    while i < mounts.len()
        invariant
            i <= mounts@.len(),
            ms == mount_views(mounts@),
            first_missing_required_source(ms, *host) == first_missing_required_source(ms.skip(i as int), *host),
            mounts_before_first_missing(ms, *host) == ms.take(i as int) + mounts_before_first_missing(ms.skip(i as int), *host),
            mount_views(kept@) == present_mounts(ms.take(i as int), *host),
            string_views(points@) == mount_points_of(mount_views(kept@), home@, sandbox_home@, *host),
            string_views(dirs@).no_duplicates(),
            string_views(dirs@).to_set() == needed_directories(mount_views(kept@), *host),
            home@ == context.path_buf_representing_host_home_directory@,
            sandbox_home@ == context.path_buf_representing_sandbox_home_directory@,
        decreases mounts@.len() - i,
    {
        let m = &mounts[i];
        let ghost mm = m@;
        assert(ms[i as int] == mm);
        assert(ms.skip(i as int)[0] == mm);
        assert(ms.skip(i as int).drop_first() =~= ms.skip(i + 1));
        assert(ms.take(i + 1).drop_last() =~= ms.take(i as int));
        assert(ms.take(i + 1) =~= ms.take(i as int).push(mm));
        proof {
            ms.take(i as int).lemma_filter_push(mm, |x: MountModel| host.path_exists(x.source));
        }
        let src = m.path_buf_representing_host_source.as_str();
        if host.exists_at(src) {
            let point = sandbox_home_mount_point_directory(src, home, sandbox_home, true, host.is_directory_at(src));
            let dest = m.path_buf_representing_container_destination.as_str();
            let parents = get_unique_non_system_parent_paths(dest, host.exists_at(dest) && host.is_directory_at(dest));
            let ghost old_kept = mount_views(kept@);
            let ghost old_points = string_views(points@);
            match point {
                Some(pt) => {
                    points.push(pt);
                    assert(string_views(points@) =~= old_points.push(pt@));
                },
                None => {},
            }
            append_missing_strings(&mut dirs, parents);
            let copy = MountSpecification {
                path_buf_representing_host_source: m.path_buf_representing_host_source.clone(),
                path_buf_representing_container_destination: m.path_buf_representing_container_destination.clone(),
                boolean_flag_indicating_readonly: m.boolean_flag_indicating_readonly,
                boolean_flag_indicating_try_only: m.boolean_flag_indicating_try_only,
                boolean_flag_indicating_host_directory_creation_allowed: m.boolean_flag_indicating_host_directory_creation_allowed,
            };
            push_mount(&mut kept, copy);
            assert(mount_views(kept@).drop_last() =~= old_kept);
            assert(string_views(points@) =~= mount_points_of(mount_views(kept@), home@, sandbox_home@, *host));
        } else if !m.boolean_flag_indicating_try_only && !m.boolean_flag_indicating_host_directory_creation_allowed {
            assert(!host.path_exists(mm.source));
            assert(ms.skip(i as int).len() > 0);
            assert(first_missing_required_source(ms.skip(i as int), *host) == Some(mm.source));
            assert(mounts_before_first_missing(ms, *host) =~= ms.take(i as int));
            return Err(MissingMountSource { path: m.path_buf_representing_host_source.clone(), sandbox_mount_points: points });
        }
        proof {
            lemma_mounts_before_first_missing_step(ms, i as int, *host);
        }
        i += 1;
    }
    assert(ms.take(ms.len() as int) =~= ms);
    assert(ms.skip(ms.len() as int) =~= Seq::<MountModel>::empty());
    let sorted = sort_by_byte_length(dirs);
    Ok(HealedMounts { sorted_directories: sorted, mounts: kept, sandbox_mount_points: points })
}

// ==========================================
// The shield, as a law
// ==========================================

/// A mount the shield lets through: its source is not a prohibited
/// directory, or it is the target program itself, mounted read-only.
pub open spec fn shielded_mount(m: MountModel, home: Seq<char>, target: crate::core_data_structures::TargetModel) -> bool {
    !is_prohibited_directory(m.source, home) || (m.readonly && target.category == CategoryModel::PhysicalWindowsExecutable(
        m.source,
    ))
}

proof fn lemma_secondary_mounts_shielded(dirs: Seq<Seq<char>>, home: Seq<char>, sandbox_home: Seq<char>)
    ensures
        forall|i: int| 0 <= i < secondary_mounts(dirs, home, sandbox_home).0.len()
            ==> !is_prohibited_directory(#[trigger] secondary_mounts(dirs, home, sandbox_home).0[i].source, home),
    decreases dirs.len(),
{
    if dirs.len() > 0 {
        lemma_secondary_mounts_shielded(dirs.drop_last(), home, sandbox_home);
        let m = secondary_mounts(dirs.drop_last(), home, sandbox_home).0;
        let r = secondary_mounts(dirs, home, sandbox_home).0;
        let d = dirs.last();
        assert forall|i: int| 0 <= i < r.len() implies !is_prohibited_directory(#[trigger] r[i].source, home) by {
            if i < m.len() {
                assert(r[i] == m[i]);
            } else {
                assert(r == m.push(same_place_mount(d, false, true, false)));
            }
        }
    }
}

/// The mounts made automatically — for the target, its secondary files and
/// the Wine runner — never bring in a shared system directory or the home
/// directory itself; at most the target program is mounted alone,
/// read-only.
pub proof fn lemma_automatic_mounts_avoid_shared_directories(
    context: SandboxContext,
    target: crate::core_data_structures::TargetModel,
    cli_wine: Option<Seq<char>>,
    host: HostSnapshot,
)
    ensures
        forall|i: int| 0 <= i < target_mounts(context, target, host).0.len() ==> shielded_mount(
            #[trigger] target_mounts(context, target, host).0[i],
            context.path_buf_representing_host_home_directory@,
            target,
        ),
        forall|i: int| 0 <= i < runner_part(context, cli_wine, host).0.len() ==> shielded_mount(
            #[trigger] runner_part(context, cli_wine, host).0[i],
            context.path_buf_representing_host_home_directory@,
            target,
        ),
{
    let home = context.path_buf_representing_host_home_directory@;
    let sandbox_home = host.absolute(context.path_buf_representing_sandbox_home_directory@);
    match target.category {
        CategoryModel::PhysicalWindowsExecutable(exe) => {
            let (pm, pn) = if path_starts_with(host.absolute(exe), sandbox_home) {
                (Seq::<MountModel>::empty(), Seq::<NoticeModel>::empty())
            } else {
                primary_mounts(exe, penetration_depth(context.configuration_pyramid_representing_all_layers), home)
            };
            let sm = secondary_mounts(target.secondary_sources, home, sandbox_home).0;
            lemma_secondary_mounts_shielded(target.secondary_sources, home, sandbox_home);
            assert forall|i: int| 0 <= i < pm.len() implies shielded_mount(#[trigger] pm[i], home, target) by {}
            assert(target_mounts(context, target, host).0 == pm + sm);
            assert forall|i: int| 0 <= i < (pm + sm).len() implies shielded_mount(#[trigger] (pm + sm)[i], home, target) by {
                if i >= pm.len() {
                    assert((pm + sm)[i] == sm[i - pm.len()]);
                }
            }
        },
        _ => {},
    }
}

/// A custom Wine runner is only ever mounted read-only, at its own place.
pub proof fn lemma_runner_mounted_read_only(context: SandboxContext, cli_wine: Option<Seq<char>>, host: HostSnapshot)
    ensures
        forall|i: int| 0 <= i < runner_part(context, cli_wine, host).0.len() ==> {
            &&& (#[trigger] runner_part(context, cli_wine, host).0[i]).readonly
            &&& runner_part(context, cli_wine, host).0[i].source == runner_part(context, cli_wine, host).0[i].destination
        },
{
}

/// A program that lies inside the sandbox home (it was installed into the
/// sandbox) is not mounted again: neither it nor any directory around it
/// gets a mount, and its notices are only those of its secondary files.
pub proof fn lemma_program_inside_sandbox_is_not_mounted(
    context: SandboxContext,
    target: crate::core_data_structures::TargetModel,
    host: HostSnapshot,
)
    requires
        target.category matches CategoryModel::PhysicalWindowsExecutable(exe) && path_starts_with(
            host.absolute(exe),
            host.absolute(context.path_buf_representing_sandbox_home_directory@),
        ),
    ensures
        target_mounts(context, target, host) == secondary_mounts(
            target.secondary_sources,
            context.path_buf_representing_host_home_directory@,
            host.absolute(context.path_buf_representing_sandbox_home_directory@),
        ),
        forall|i: int| 0 <= i < target_mounts(context, target, host).0.len() ==> (#[trigger] target_mounts(context, target, host).0[i]).try_only
            && !target_mounts(context, target, host).0[i].readonly,
{
    let home = context.path_buf_representing_host_home_directory@;
    let sandbox_home = host.absolute(context.path_buf_representing_sandbox_home_directory@);
    let (sm, sn) = secondary_mounts(target.secondary_sources, home, sandbox_home);
    assert(Seq::<MountModel>::empty() + sm =~= sm);
    assert(Seq::<NoticeModel>::empty() + sn =~= sn);
    lemma_secondary_mounts_are_optional(target.secondary_sources, home, sandbox_home);
}

proof fn lemma_secondary_mounts_are_optional(dirs: Seq<Seq<char>>, home: Seq<char>, sandbox_home: Seq<char>)
    ensures
        forall|i: int| 0 <= i < secondary_mounts(dirs, home, sandbox_home).0.len() ==> (#[trigger] secondary_mounts(
            dirs,
            home,
            sandbox_home,
        ).0[i]).try_only && !secondary_mounts(dirs, home, sandbox_home).0[i].readonly,
    decreases dirs.len(),
{
    if dirs.len() > 0 {
        lemma_secondary_mounts_are_optional(dirs.drop_last(), home, sandbox_home);
        let m = secondary_mounts(dirs.drop_last(), home, sandbox_home).0;
        let r = secondary_mounts(dirs, home, sandbox_home).0;
        assert forall|i: int| 0 <= i < r.len() implies (#[trigger] r[i]).try_only && !r[i].readonly by {
            if i < m.len() {
                assert(r[i] == m[i]);
            }
        }
    }
}

} // verus!
