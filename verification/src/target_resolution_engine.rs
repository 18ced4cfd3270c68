//! From the command line and the profile to a classified target: the
//! custom-engine prefix, the sandbox identity, the host probe, the
//! multi-argument scanner and the final classification.
use vstd::prelude::*;
use crate::core_data_structures::{
    copy_strings_from, extend_strings, first_defined, forwarded_environment, owned, pair_views,
    string_views, CategoryModel, ConfigurationLayer, ConfigurationPyramid, SandboxContext,
    TargetCategory, TargetModel, TargetSpecification,
};
use crate::file_system_utilities::{expand_tilde, identity_token, identity_token_of_path};
use crate::host_path::{parent_path, path_parent};
use crate::host_path::{join_path, opt_view, path_join};
use crate::host_snapshot::{HostEnvironment, HostSnapshot};
use crate::text::{
    chars_end_with, chars_equal, chars_of, chars_start_with, concat_chars, contains_char, ends_with,
    lowercase_of, seqs_of, split_chars, split_on, split_whitespace, split_whitespace_chars,
    starts_with, str_equal, string_from_chars, to_lowercase, ascii_lowercase_char, is_ascii_text,
};

verus! {

// ==========================================
// Stage 1: the command line
// ==========================================

/// A (lowercased) first argument that names a Wine binary.
pub open spec fn names_wine_binary(lower: Seq<char>) -> bool {
    lower == "wine"@ || lower == "wine64"@ || ends_with(lower, "/wine"@) || ends_with(lower, "/wine64"@)
}

fn lower_str(s: &str) -> (r: Vec<char>)
    ensures
        r@ == lowercase_of(s@),
        is_ascii_text(s@) ==> lowercase_of(s@) == s@.map_values(|c: char| ascii_lowercase_char(c)),
{
    let l = to_lowercase(s);
    chars_of(l.as_str())
}

fn chars_equal_str(v: &[char], s: &str) -> (r: bool)
    ensures
        r == (v@ == s@),
{
    let sv = chars_of(s);
    chars_equal(v, &sv)
}

fn chars_end_with_str(v: &[char], s: &str) -> (r: bool)
    ensures
        r == ends_with(v@, s@),
{
    let sv = chars_of(s);
    chars_end_with(v, &sv)
}

fn chars_start_with_str(v: &[char], s: &str) -> (r: bool)
    ensures
        r == starts_with(v@, s@),
{
    let sv = chars_of(s);
    chars_start_with(v, &sv)
}

/// Splits off a leading Wine binary: when there are at least two arguments
/// and the first, lowercased, is `wine` or `wine64` or ends in `/wine` or
/// `/wine64`, it is returned apart from the rest.  Otherwise all arguments
/// are the target and its arguments.
pub fn parse_target_executable_and_remaining_arguments_from_cli(args: &[String]) -> (r: (
    Option<String>,
    Vec<String>,
))
    ensures
        (args@.len() > 1 && names_wine_binary(lowercase_of(args@[0]@))) ==> (opt_view(r.0) == Some(
            args@[0]@,
        ) && string_views(r.1@) == string_views(args@).skip(1)),
        !(args@.len() > 1 && names_wine_binary(lowercase_of(args@[0]@))) ==> (r.0 is None
            && string_views(r.1@) == string_views(args@)),
        (args@.len() > 1 && (lowercase_of(args@[0]@) == "wine"@ || lowercase_of(args@[0]@) == "wine64"@
            || ends_with(lowercase_of(args@[0]@), "/wine"@) || ends_with(lowercase_of(args@[0]@), "/wine64"@)))
            ==> (opt_view(r.0) == Some(args@[0]@) && string_views(r.1@) == string_views(args@).skip(1)),
{
    if args.len() > 1 {
        let l = lower_str(args[0].as_str());
        if chars_equal_str(&l, "wine") || chars_equal_str(&l, "wine64") || chars_end_with_str(
            &l,
            "/wine",
        ) || chars_end_with_str(&l, "/wine64") {
            return (Some(args[0].clone()), copy_strings_from(args, 1));
        }
    }
    let all = copy_strings_from(args, 0);
    assert(string_views(args@).skip(0) =~= string_views(args@));
    (None, all)
}

// ==========================================
// Stage 2: probing the host for a named file
// ==========================================

/// The target names with `.exe`, `.bat` or `.msi` (in any case).
pub open spec fn has_windows_launch_extension(raw: Seq<char>) -> bool {
    let l = lowercase_of(raw);
    ends_with(l, ".exe"@) || ends_with(l, ".bat"@) || ends_with(l, ".msi"@)
}

/// The names tried for `raw`: `raw` itself, then `raw.exe` unless `raw`
/// already carries a Windows launch extension.
pub open spec fn probe_candidate_names(raw: Seq<char>) -> Seq<Seq<char>> {
    if has_windows_launch_extension(raw) {
        seq![raw]
    } else {
        seq![raw, raw + ".exe"@]
    }
}

/// A name that is a path of its own: it holds `/` or `\\`, or starts with `~`.
pub open spec fn is_explicit_path(name: Seq<char>) -> bool {
    name.contains('/') || name.contains('\\') || starts_with(name, "~"@)
}

/// A list holding the value of an option, if any.
pub open spec fn option_list(o: Option<Seq<char>>) -> Seq<Seq<char>> {
    match o {
        Some(x) => seq![x],
        None => Seq::<Seq<char>>::empty(),
    }
}

/// The directories searched for a bare name, in order: the engine's `bin`
/// directory (if known), each entry of `PATH` (if set), then the working
/// directory (if known).
pub open spec fn search_directories(engine_bin_dir: Option<Seq<char>>, env: HostEnvironment) -> Seq<Seq<char>> {
    option_list(engine_bin_dir) + (match opt_view(env.search_path) {
        Some(p) => split_on(p, ':'),
        None => Seq::<Seq<char>>::empty(),
    }) + option_list(opt_view(env.current_directory))
}

/// `p` exists and is a regular file.
pub open spec fn is_regular_file(host: HostSnapshot, p: Seq<char>) -> bool {
    host.path_exists(p) && host.is_file(p)
}

/// The absolute form of `dir/name` for the first directory where that is a
/// regular file.
pub open spec fn first_file_in(host: HostSnapshot, dirs: Seq<Seq<char>>, name: Seq<char>) -> Option<
    Seq<char>,
>
    decreases dirs.len(),
{
    if dirs.len() == 0 {
        None
    } else {
        let p = path_join(dirs[0], name);
        if is_regular_file(host, p) {
            Some(host.absolute(p))
        } else {
            first_file_in(host, dirs.drop_first(), name)
        }
    }
}

/// Where one candidate name is found: an explicit path is made absolute and
/// must be a regular file; a bare name is searched for in `dirs`.
pub open spec fn probe_name(host: HostSnapshot, name: Seq<char>, dirs: Seq<Seq<char>>) -> Option<
    Seq<char>,
> {
    if is_explicit_path(name) {
        let p = host.absolute(name);
        if is_regular_file(host, p) {
            Some(p)
        } else {
            None
        }
    } else {
        first_file_in(host, dirs, name)
    }
}

/// The first candidate name that is found.
pub open spec fn probe_names(host: HostSnapshot, names: Seq<Seq<char>>, dirs: Seq<Seq<char>>) -> Option<
    Seq<char>,
>
    decreases names.len(),
{
    if names.len() == 0 {
        None
    } else {
        match probe_name(host, names[0], dirs) {
            Some(p) => Some(p),
            None => probe_names(host, names.drop_first(), dirs),
        }
    }
}

/// The host file a target string stands for, if any.
pub open spec fn probed_entity(host: HostSnapshot, raw: Seq<char>, dirs: Seq<Seq<char>>) -> Option<
    Seq<char>,
> {
    probe_names(host, probe_candidate_names(raw), dirs)
}

/// The paths whose facts a probe for one candidate name reads.
pub open spec fn probe_queries_for_name(name: Seq<char>, dirs: Seq<Seq<char>>) -> Seq<Seq<char>> {
    if is_explicit_path(name) {
        seq![name]
    } else {
        dirs.map_values(|d: Seq<char>| path_join(d, name))
    }
}

/// The paths whose facts a probe for `raw` reads (each together with its
/// absolute form).
pub open spec fn probe_queries(raw: Seq<char>, dirs: Seq<Seq<char>>) -> Seq<Seq<char>> {
    let names = probe_candidate_names(raw);
    if names.len() == 1 {
        probe_queries_for_name(names[0], dirs)
    } else {
        probe_queries_for_name(names[0], dirs) + probe_queries_for_name(names[1], dirs)
    }
}

/// The directories searched for a bare name.
pub fn search_directories_of(engine_bin_dir: Option<String>, env: &HostEnvironment) -> (r: Vec<String>)
    ensures
        string_views(r@) == search_directories(opt_view(engine_bin_dir), *env),
{
    let mut r: Vec<String> = Vec::new();
    match engine_bin_dir {
        Some(d) => {
            r.push(d);
        },
        None => {},
    }
    assert(string_views(r@) =~= option_list(opt_view(engine_bin_dir)));
    match &env.search_path {
        Some(p) => {
            let pv = chars_of(p.as_str());
            let parts = split_chars(&pv, ':');
            let mut i: usize = 0;
            let ghost start = string_views(r@);
            while i < parts.len()
                invariant
                    i <= parts@.len(),
                    seqs_of(parts@) == split_on(p@, ':'),
                    string_views(r@) == start + seqs_of(parts@).take(i as int),
                decreases parts@.len() - i,
            {
                let ghost old_r = r@;
                r.push(string_from_chars(&parts[i]));
                assert(string_views(r@) =~= string_views(old_r).push(parts@[i as int]@));
                assert(seqs_of(parts@).take(i + 1) =~= seqs_of(parts@).take(i as int).push(
                    parts@[i as int]@,
                ));
                i += 1;
            }
            assert(seqs_of(parts@).take(parts@.len() as int) =~= seqs_of(parts@));
        },
        None => {
            assert(string_views(r@) =~= string_views(r@) + Seq::<Seq<char>>::empty());
        },
    }
    let ghost mid = string_views(r@);
    match &env.current_directory {
        Some(c) => {
            r.push(c.clone());
            assert(string_views(r@) =~= mid.push(c@));
        },
        None => {},
    }
    assert(string_views(r@) =~= search_directories(opt_view(engine_bin_dir), *env));
    r
}

fn is_explicit_path_exec(name: &[char]) -> (r: bool)
    ensures
        r == is_explicit_path(name@),
{
    let tilde = chars_of("~");
    contains_char(name, '/') || contains_char(name, '\\') || chars_start_with(name, &tilde)
}

fn has_windows_launch_extension_exec(raw: &str) -> (r: bool)
    ensures
        r == has_windows_launch_extension(raw@),
{
    let l = lower_str(raw);
    chars_end_with_str(&l, ".exe") || chars_end_with_str(&l, ".bat") || chars_end_with_str(&l, ".msi")
}

/// The candidate names for `raw`.
pub fn probe_candidate_names_of(raw: &str) -> (r: Vec<String>)
    ensures
        string_views(r@) == probe_candidate_names(raw@),
{
    let mut r: Vec<String> = Vec::new();
    r.push(owned(raw));
    if !has_windows_launch_extension_exec(raw) {
        let with_exe = concat_chars(&chars_of(raw), &chars_of(".exe"));
        r.push(string_from_chars(&with_exe));
    }
    assert(string_views(r@) =~= probe_candidate_names(raw@));
    r
}

fn is_regular_file_exec(host: &HostSnapshot, p: &str) -> (r: bool)
    ensures
        r == is_regular_file(*host, p@),
{
    host.exists_at(p) && host.is_file_at(p)
}

fn probe_name_exec(host: &HostSnapshot, name: &str, dirs: &Vec<String>) -> (r: Option<String>)
    ensures
        opt_view(r) == probe_name(*host, name@, string_views(dirs@)),
{
    let nv = chars_of(name);
    if is_explicit_path_exec(&nv) {
        let p = host.absolute_of(name);
        if is_regular_file_exec(host, p.as_str()) {
            Some(p)
        } else {
            None
        }
    } else {
        let ghost ds = string_views(dirs@);
        let mut i: usize = 0;
        assert(ds.skip(0) =~= ds);
        while i < dirs.len()
            invariant
                i <= dirs@.len(),
                ds == string_views(dirs@),
                !is_explicit_path(name@),
                probe_name(*host, name@, ds) == first_file_in(*host, ds.skip(i as int), name@),
            decreases dirs@.len() - i,
        {
            assert(ds.skip(i as int).drop_first() =~= ds.skip(i + 1));
            assert(ds.skip(i as int)[0] == dirs@[i as int]@);
            let p = join_path(dirs[i].as_str(), name);
            if is_regular_file_exec(host, p.as_str()) {
                return Some(host.absolute_of(p.as_str()));
            }
            i += 1;
        }
        None
    }
}

/// Looks for the host file that `raw` names: `raw`, then `raw.exe` unless
/// it carries a launch extension; an explicit path is made absolute and must
/// be a regular file; a bare name is looked for in the engine's `bin`
/// directory, then along `PATH`, then in the working directory.
pub fn probe_host_physical_entity(
    raw: &str,
    engine_bin_dir: Option<String>,
    env: &HostEnvironment,
    host: &HostSnapshot,
) -> (r: Option<String>)
    ensures
        opt_view(r) == probed_entity(*host, raw@, search_directories(opt_view(engine_bin_dir), *env)),
{
    let dirs = search_directories_of(engine_bin_dir, env);
    probe_with_directories(raw, &dirs, host)
}

/// Probes for `raw` in a given list of search directories.
pub fn probe_with_directories(raw: &str, dirs: &Vec<String>, host: &HostSnapshot) -> (r: Option<String>)
    ensures
        opt_view(r) == probed_entity(*host, raw@, string_views(dirs@)),
{
    let names = probe_candidate_names_of(raw);
    let ghost ns = string_views(names@);
    let mut i: usize = 0;
    assert(ns.skip(0) =~= ns);
    while i < names.len()
        invariant
            i <= names@.len(),
            ns == string_views(names@),
            ns == probe_candidate_names(raw@),
            probed_entity(*host, raw@, string_views(dirs@)) == probe_names(*host, ns.skip(i as int), string_views(dirs@)),
        decreases names@.len() - i,
    {
        assert(ns.skip(i as int).drop_first() =~= ns.skip(i + 1));
        assert(ns.skip(i as int)[0] == names@[i as int]@);
        match probe_name_exec(host, names[i].as_str(), dirs) {
            Some(p) => {
                return Some(p);
            },
            None => {},
        }
        i += 1;
    }
    None
}

fn push_probe_queries_for_name(r: &mut Vec<String>, name: &str, dirs: &Vec<String>)
    ensures
        string_views(final(r)@) == string_views(old(r)@) + probe_queries_for_name(name@, string_views(dirs@)),
{
    let nv = chars_of(name);
    if is_explicit_path_exec(&nv) {
        let ghost before = string_views(r@);
        r.push(owned(name));
        assert(string_views(r@) =~= before + seq![name@]);
    } else {
        let ghost start = string_views(r@);
        let ghost ds = string_views(dirs@);
        let mut i: usize = 0;
        while i < dirs.len()
            invariant
                i <= dirs@.len(),
                ds == string_views(dirs@),
                string_views(r@) == start + ds.take(i as int).map_values(|d: Seq<char>| path_join(d, name@)),
            decreases dirs@.len() - i,
        {
            let ghost old_r = string_views(r@);
            let p = join_path(dirs[i].as_str(), name);
            r.push(p);
            assert(ds.take(i + 1).map_values(|d: Seq<char>| path_join(d, name@)) =~= ds.take(i as int).map_values(
                |d: Seq<char>| path_join(d, name@),
            ).push(path_join(dirs@[i as int]@, name@)));
            assert(string_views(r@) =~= old_r.push(path_join(dirs@[i as int]@, name@)));
            i += 1;
        }
        assert(ds.take(ds.len() as int) =~= ds);
    }
}

/// Appends the paths a probe for `raw` reads.
pub fn push_probe_queries(r: &mut Vec<String>, raw: &str, dirs: &Vec<String>)
    ensures
        string_views(final(r)@) == string_views(old(r)@) + probe_queries(raw@, string_views(dirs@)),
{
    let names = probe_candidate_names_of(raw);
    let ghost before = string_views(r@);
    assert(string_views(names@).len() >= 1);
    push_probe_queries_for_name(r, names[0].as_str(), dirs);
    if names.len() > 1 {
        let ghost mid = string_views(r@);
        push_probe_queries_for_name(r, names[1].as_str(), dirs);
        assert(string_views(r@) =~= before + probe_queries(raw@, string_views(dirs@)));
    }
}

// ==========================================
// Stage 3: the Wine engine
// ==========================================

/// The Wine binary asked for: the one given on the command line, else
/// `WINER_WINE_PATH`, else `wine`.
pub open spec fn custom_wine_binary(pyramid: ConfigurationPyramid, cli_wine: Option<Seq<char>>) -> Seq<char> {
    match cli_wine {
        Some(c) => c,
        None => pyramid.resolved_value("WINER_WINE_PATH"@, "wine"@),
    }
}

/// The Wine binary asked for.
pub fn custom_wine_binary_of(pyramid: &ConfigurationPyramid, cli_wine: &Option<String>) -> (r: String)
    ensures
        r@ == custom_wine_binary(*pyramid, opt_view(*cli_wine)),
{
    match cli_wine {
        Some(c) => c.clone(),
        None => pyramid.resolve_configuration_value("WINER_WINE_PATH", "wine"),
    }
}

/// Where the engine binary lies on the host: an explicit path made
/// absolute; otherwise the file found for the name along `PATH` and in the
/// working directory, or failing that the name made absolute.
pub open spec fn engine_binary_path(host: HostSnapshot, wine: Seq<char>, env: HostEnvironment) -> Seq<char> {
    if is_explicit_path(wine) {
        host.absolute(wine)
    } else {
        match probed_entity(host, wine, search_directories(None, env)) {
            Some(p) => p,
            None => host.absolute(wine),
        }
    }
}

/// The paths whose facts resolving the engine binary reads.
pub open spec fn engine_binary_queries(wine: Seq<char>, env: HostEnvironment) -> Seq<Seq<char>> {
    if is_explicit_path(wine) {
        seq![wine]
    } else {
        probe_queries(wine, search_directories(None, env)) + seq![wine]
    }
}

/// Resolves the engine binary on the host.
pub fn resolve_engine_binary_path(wine: &str, env: &HostEnvironment, host: &HostSnapshot) -> (r: String)
    ensures
        r@ == engine_binary_path(*host, wine@, *env),
{
    let wv = chars_of(wine);
    if is_explicit_path_exec(&wv) {
        host.absolute_of(wine)
    } else {
        match probe_host_physical_entity(wine, None, env, host) {
            Some(p) => p,
            None => host.absolute_of(wine),
        }
    }
}

/// Appends the paths resolving the engine binary reads.
pub fn push_engine_binary_queries(r: &mut Vec<String>, wine: &str, env: &HostEnvironment)
    ensures
        string_views(final(r)@) == string_views(old(r)@) + engine_binary_queries(wine@, *env),
{
    let wv = chars_of(wine);
    let ghost before = string_views(r@);
    if is_explicit_path_exec(&wv) {
        r.push(owned(wine));
        assert(string_views(r@) =~= before + seq![wine@]);
    } else {
        let dirs = search_directories_of(None, env);
        push_probe_queries(r, wine, &dirs);
        let ghost mid = string_views(r@);
        r.push(owned(wine));
        assert(string_views(r@) =~= mid.push(wine@));
        assert(string_views(r@) =~= before + engine_binary_queries(wine@, *env));
    }
}


// ==========================================
// Stage 4: the multi-argument scanner
// ==========================================

/// The state of the scanner.
pub struct ScanModel {
    pub primary_raw: Option<Seq<char>>,
    pub primary_path: Option<Seq<char>>,
    pub prefixes: Seq<Seq<char>>,
    pub secondary: Seq<Seq<char>>,
    pub remaining: Seq<Seq<char>>,
    pub found: bool,
}

/// What the scanner has collected so far.
pub struct IntermediateScannedArgumentsCollection {
    pub option_representing_primary_target_raw_input: Option<String>,
    pub option_representing_absolute_path_to_primary_target_executable: Option<String>,
    pub vector_of_strings_representing_launcher_prefix_commands: Vec<String>,
    pub vector_of_path_bufs_representing_secondary_penetration_mount_sources: Vec<String>,
    pub vector_of_strings_representing_remaining_cli_arguments: Vec<String>,
    pub boolean_flag_indicating_primary_target_found: bool,
}

impl View for IntermediateScannedArgumentsCollection {
    type V = ScanModel;

    open spec fn view(&self) -> ScanModel {
        ScanModel {
            primary_raw: opt_view(self.option_representing_primary_target_raw_input),
            primary_path: opt_view(self.option_representing_absolute_path_to_primary_target_executable),
            prefixes: string_views(self.vector_of_strings_representing_launcher_prefix_commands@),
            secondary: string_views(
                self.vector_of_path_bufs_representing_secondary_penetration_mount_sources@,
            ),
            remaining: string_views(self.vector_of_strings_representing_remaining_cli_arguments@),
            found: self.boolean_flag_indicating_primary_target_found,
        }
    }
}

/// The scanner before any argument.
pub open spec fn empty_scan() -> ScanModel {
    ScanModel {
        primary_raw: None,
        primary_path: None,
        prefixes: Seq::empty(),
        secondary: Seq::empty(),
        remaining: Seq::empty(),
        found: false,
    }
}

/// The parent directory of a found file, as a list of at most one source.
pub open spec fn parent_sources(p: Seq<char>) -> Seq<Seq<char>> {
    option_list(path_parent(p))
}

/// One command-line argument scanned: before the primary target is found,
/// an argument that names a host file becomes the primary target and any
/// other becomes a launcher prefix; after it, every argument is an argument
/// of the target, and the directory of any host file it names is kept for
/// mounting.
pub open spec fn scan_argument(st: ScanModel, arg: Seq<char>, probe: Option<Seq<char>>) -> ScanModel {
    if !st.found {
        match probe {
            Some(p) => ScanModel { found: true, primary_raw: Some(arg), primary_path: Some(p), ..st },
            None => ScanModel { prefixes: st.prefixes.push(arg), ..st },
        }
    } else {
        ScanModel {
            remaining: st.remaining.push(arg),
            secondary: st.secondary + match probe {
                Some(p) => parent_sources(p),
                None => Seq::<Seq<char>>::empty(),
            },
            ..st
        }
    }
}

/// The command-line arguments scanned from left to right.
pub open spec fn scan_command_line(host: HostSnapshot, args: Seq<Seq<char>>, dirs: Seq<Seq<char>>) -> ScanModel
    decreases args.len(),
{
    if args.len() == 0 {
        empty_scan()
    } else {
        scan_argument(
            scan_command_line(host, args.drop_last(), dirs),
            args.last(),
            probed_entity(host, args.last(), dirs),
        )
    }
}

/// One token of `WINER_EXE_PRE` scanned: a host file becomes a prefix by its
/// absolute path, and its directory is kept for mounting; anything else is
/// kept as written.
pub open spec fn scan_prefix_token(st: ScanModel, token: Seq<char>, probe: Option<Seq<char>>) -> ScanModel {
    match probe {
        Some(p) => ScanModel { secondary: st.secondary + parent_sources(p), prefixes: st.prefixes.push(p), ..st },
        None => ScanModel { prefixes: st.prefixes.push(token), ..st },
    }
}

/// The tokens of `WINER_EXE_PRE` scanned from left to right.
pub open spec fn scan_prefix_tokens(host: HostSnapshot, st: ScanModel, tokens: Seq<Seq<char>>, dirs: Seq<Seq<char>>) -> ScanModel
    decreases tokens.len(),
{
    if tokens.len() == 0 {
        st
    } else {
        scan_prefix_token(
            scan_prefix_tokens(host, st, tokens.drop_last(), dirs),
            tokens.last(),
            probed_entity(host, tokens.last(), dirs),
        )
    }
}

/// The profile scanned when there are no command-line arguments: the target
/// is `WINER_EXE_PATH` (none when it is empty), the prefixes come from
/// `WINER_EXE_PRE` and the arguments from `WINER_EXE_ARGS`, both split at
/// white space.
pub open spec fn scan_profile(host: HostSnapshot, pyramid: ConfigurationPyramid, dirs: Seq<Seq<char>>) -> Option<ScanModel> {
    let exe = pyramid.resolved_value("WINER_EXE_PATH"@, ""@);
    if exe.len() == 0 {
        None
    } else {
        let probe = probed_entity(host, exe, dirs);
        let st0 = ScanModel { primary_raw: Some(exe), primary_path: probe, found: probe is Some, ..empty_scan() };
        let st1 = scan_prefix_tokens(
            host,
            st0,
            split_whitespace(pyramid.resolved_value("WINER_EXE_PRE"@, ""@)),
            dirs,
        );
        Some(ScanModel { remaining: split_whitespace(pyramid.resolved_value("WINER_EXE_ARGS"@, ""@)), ..st1 })
    }
}

/// What the scanner yields: the command line when there are arguments,
/// else the profile.
pub open spec fn scan_all(host: HostSnapshot, args: Seq<Seq<char>>, pyramid: ConfigurationPyramid, dirs: Seq<Seq<char>>) -> Option<ScanModel> {
    if args.len() > 0 {
        Some(scan_command_line(host, args, dirs))
    } else {
        scan_profile(host, pyramid, dirs)
    }
}

/// A found primary target always has its raw text and host path.
pub open spec fn scan_well_formed(st: ScanModel) -> bool {
    st.found ==> (st.primary_raw is Some && st.primary_path is Some)
}

fn new_collection() -> (r: IntermediateScannedArgumentsCollection)
    ensures
        r@ == empty_scan(),
{
    let r = IntermediateScannedArgumentsCollection {
        option_representing_primary_target_raw_input: None,
        option_representing_absolute_path_to_primary_target_executable: None,
        vector_of_strings_representing_launcher_prefix_commands: Vec::new(),
        vector_of_path_bufs_representing_secondary_penetration_mount_sources: Vec::new(),
        vector_of_strings_representing_remaining_cli_arguments: Vec::new(),
        boolean_flag_indicating_primary_target_found: false,
    };
    assert(r@.prefixes =~= Seq::<Seq<char>>::empty());
    assert(r@.secondary =~= Seq::<Seq<char>>::empty());
    assert(r@.remaining =~= Seq::<Seq<char>>::empty());
    r
}

pub(crate) fn push_string(v: &mut Vec<String>, s: String)
    ensures
        string_views(final(v)@) == string_views(old(v)@).push(s@),
{
    let ghost before = v@;
    v.push(s);
    assert(string_views(v@) =~= string_views(before).push(s@));
}

fn push_parent_source(v: &mut Vec<String>, p: &str)
    ensures
        string_views(final(v)@) == string_views(old(v)@) + parent_sources(p@),
{
    let ghost before = string_views(v@);
    match parent_path(p) {
        Some(q) => {
            push_string(v, q);
            assert(string_views(v@) =~= before + parent_sources(p@));
        },
        None => {
            assert(string_views(v@) =~= before + parent_sources(p@));
        },
    }
}

fn scan_command_line_exec(args: Vec<String>, dirs: &Vec<String>, host: &HostSnapshot) -> (r: IntermediateScannedArgumentsCollection)
    ensures
        r@ == scan_command_line(*host, string_views(args@), string_views(dirs@)),
        scan_well_formed(r@),
{
    let mut c = new_collection();
    let ghost av = string_views(args@);
    let mut i: usize = 0;
    assert(av.take(0) =~= Seq::<Seq<char>>::empty());
    while i < args.len()
        invariant
            i <= args@.len(),
            av == string_views(args@),
            c@ == scan_command_line(*host, av.take(i as int), string_views(dirs@)),
            scan_well_formed(c@),
        decreases args@.len() - i,
    {
        let arg = &args[i];
        assert(av.take(i + 1).drop_last() =~= av.take(i as int));
        assert(av.take(i + 1).last() == arg@);
        let probe = probe_with_directories(arg.as_str(), dirs, host);
        if !c.boolean_flag_indicating_primary_target_found {
            match probe {
                Some(p) => {
                    c.boolean_flag_indicating_primary_target_found = true;
                    c.option_representing_primary_target_raw_input = Some(arg.clone());
                    c.option_representing_absolute_path_to_primary_target_executable = Some(p);
                },
                None => {
                    push_string(&mut c.vector_of_strings_representing_launcher_prefix_commands, arg.clone());
                },
            }
        } else {
            push_string(&mut c.vector_of_strings_representing_remaining_cli_arguments, arg.clone());
            match probe {
                Some(p) => {
                    push_parent_source(&mut c.vector_of_path_bufs_representing_secondary_penetration_mount_sources, p.as_str());
                },
                None => {
                    assert(c@.secondary =~= c@.secondary + Seq::<Seq<char>>::empty());
                },
            }
        }
        i += 1;
    }
    assert(av.take(av.len() as int) =~= av);
    c
}

pub(crate) fn words_of(text: &str) -> (r: Vec<String>)
    ensures
        string_views(r@) == split_whitespace(text@),
{
    let v = chars_of(text);
    let words = split_whitespace_chars(&v);
    let mut r: Vec<String> = Vec::new();
    let mut i: usize = 0;
    while i < words.len()
        invariant
            i <= words@.len(),
            seqs_of(words@) == split_whitespace(v@),
            string_views(r@) == seqs_of(words@).take(i as int),
        decreases words@.len() - i,
    {
        push_string(&mut r, string_from_chars(&words[i]));
        assert(seqs_of(words@).take(i + 1) =~= seqs_of(words@).take(i as int).push(words@[i as int]@));
        i += 1;
    }
    assert(seqs_of(words@).take(words@.len() as int) =~= seqs_of(words@));
    r
}

fn scan_profile_exec(pyramid: &ConfigurationPyramid, dirs: &Vec<String>, host: &HostSnapshot) -> (r: Option<IntermediateScannedArgumentsCollection>)
    ensures
        match r {
            Some(c) => scan_profile(*host, *pyramid, string_views(dirs@)) == Some(c@) && scan_well_formed(c@),
            None => scan_profile(*host, *pyramid, string_views(dirs@)) is None,
        },
{
    let exe = pyramid.resolve_configuration_value("WINER_EXE_PATH", "");
    if chars_of(exe.as_str()).len() == 0 {
        return None;
    }
    let mut c = new_collection();
    let probe = probe_with_directories(exe.as_str(), dirs, host);
    c.boolean_flag_indicating_primary_target_found = probe.is_some();
    c.option_representing_primary_target_raw_input = Some(exe);
    c.option_representing_absolute_path_to_primary_target_executable = probe;
    let ghost st0 = c@;
    let pre = pyramid.resolve_configuration_value("WINER_EXE_PRE", "");
    let tokens = words_of(pre.as_str());
    let ghost tv = string_views(tokens@);
    let mut i: usize = 0;
    assert(tv.take(0) =~= Seq::<Seq<char>>::empty());
    while i < tokens.len()
        invariant
            i <= tokens@.len(),
            tv == string_views(tokens@),
            scan_well_formed(st0),
            c@ == scan_prefix_tokens(*host, st0, tv.take(i as int), string_views(dirs@)),
            c@.found == st0.found,
            c@.primary_raw == st0.primary_raw,
            c@.primary_path == st0.primary_path,
        decreases tokens@.len() - i,
    {
        let token = &tokens[i];
        assert(tv.take(i + 1).drop_last() =~= tv.take(i as int));
        assert(tv.take(i + 1).last() == token@);
        match probe_with_directories(token.as_str(), dirs, host) {
            Some(p) => {
                push_parent_source(&mut c.vector_of_path_bufs_representing_secondary_penetration_mount_sources, p.as_str());
                push_string(&mut c.vector_of_strings_representing_launcher_prefix_commands, p);
            },
            None => {
                push_string(&mut c.vector_of_strings_representing_launcher_prefix_commands, token.clone());
            },
        }
        i += 1;
    }
    assert(tv.take(tv.len() as int) =~= tv);
    let args_text = pyramid.resolve_configuration_value("WINER_EXE_ARGS", "");
    c.vector_of_strings_representing_remaining_cli_arguments = words_of(args_text.as_str());
    Some(c)
}

/// Scans the command-line arguments, or, when there are none, the profile.
/// `None` means that there are no arguments and `WINER_EXE_PATH` is empty.
pub fn scan_and_collect_physical_entities_and_prefixes(
    args: Vec<String>,
    pyramid: &ConfigurationPyramid,
    dirs: &Vec<String>,
    host: &HostSnapshot,
) -> (r: Option<IntermediateScannedArgumentsCollection>)
    ensures
        match r {
            Some(c) => scan_all(*host, string_views(args@), *pyramid, string_views(dirs@)) == Some(c@)
                && scan_well_formed(c@),
            None => scan_all(*host, string_views(args@), *pyramid, string_views(dirs@)) is None,
        },
{
    if args.len() > 0 {
        Some(scan_command_line_exec(args, dirs, host))
    } else {
        scan_profile_exec(pyramid, dirs, host)
    }
}

/// Whether positional arguments override a profile that names a target:
/// there are arguments and one of `WINER_EXE_PATH`, `WINER_EXE_PRE`,
/// `WINER_EXE_ARGS` is set.
pub open spec fn profile_target_bypassed(args: Seq<Seq<char>>, pyramid: ConfigurationPyramid) -> bool {
    args.len() > 0 && (pyramid.resolved_value("WINER_EXE_PATH"@, ""@).len() > 0
        || pyramid.resolved_value("WINER_EXE_PRE"@, ""@).len() > 0
        || pyramid.resolved_value("WINER_EXE_ARGS"@, ""@).len() > 0)
}

/// Whether positional arguments override a profile that names a target
/// (the caller then tells the user so).
pub fn profile_target_configuration_bypassed(args: &Vec<String>, pyramid: &ConfigurationPyramid) -> (r: bool)
    ensures
        r == profile_target_bypassed(string_views(args@), *pyramid),
{
    if args.len() == 0 {
        return false;
    }
    let a = pyramid.resolve_configuration_value("WINER_EXE_PATH", "");
    let b = pyramid.resolve_configuration_value("WINER_EXE_PRE", "");
    let c = pyramid.resolve_configuration_value("WINER_EXE_ARGS", "");
    chars_of(a.as_str()).len() > 0 || chars_of(b.as_str()).len() > 0 || chars_of(c.as_str()).len() > 0
}

// ==========================================
// Stage 5: the virtual desktop
// ==========================================

/// A prefix that already sets up a Wine desktop.
pub open spec fn is_desktop_wrapper_argument(a: Seq<char>) -> bool {
    let l = lowercase_of(a);
    l == "explorer"@ || l == "explorer.exe"@ || starts_with(l, "/desktop="@) || starts_with(l, "-desktop="@)
}

/// The prefixes with `explorer /desktop=sandbox,<resolution>` put in front,
/// when a resolution is configured and no prefix sets up a desktop yet.
pub open spec fn with_virtual_desktop(prefixes: Seq<Seq<char>>, resolution: Seq<char>) -> Seq<Seq<char>> {
    if resolution.len() > 0 && !(exists|i: int| 0 <= i < prefixes.len() && is_desktop_wrapper_argument(#[trigger] prefixes[i])) {
        seq!["explorer"@, "/desktop=sandbox,"@ + resolution] + prefixes
    } else {
        prefixes
    }
}

fn is_desktop_wrapper_argument_exec(a: &str) -> (r: bool)
    ensures
        r == is_desktop_wrapper_argument(a@),
{
    let l = lower_str(a);
    chars_equal_str(&l, "explorer") || chars_equal_str(&l, "explorer.exe") || chars_start_with_str(&l, "/desktop=")
        || chars_start_with_str(&l, "-desktop=")
}

/// Puts `explorer /desktop=sandbox,<WINER_DESKTOP>` in front of the
/// prefixes when `WINER_DESKTOP` is set and no prefix sets up a desktop.
pub fn inject_virtual_desktop_prefix_if_configured_and_safe(
    collection: &mut IntermediateScannedArgumentsCollection,
    pyramid: &ConfigurationPyramid,
)
    ensures
        final(collection)@ == (ScanModel {
            prefixes: with_virtual_desktop(old(collection)@.prefixes, pyramid.resolved_value("WINER_DESKTOP"@, ""@)),
            ..old(collection)@
        }),
        with_virtual_desktop(final(collection)@.prefixes, pyramid.resolved_value("WINER_DESKTOP"@, ""@))
            == final(collection)@.prefixes,
{
    let resolution = pyramid.resolve_configuration_value("WINER_DESKTOP", "");
    let rv = chars_of(resolution.as_str());
    if rv.len() == 0 {
        return;
    }
    let ghost ps = string_views(collection.vector_of_strings_representing_launcher_prefix_commands@);
    let mut i: usize = 0;
    let mut already = false;
    while i < collection.vector_of_strings_representing_launcher_prefix_commands.len()
        invariant
            i <= collection.vector_of_strings_representing_launcher_prefix_commands@.len(),
            ps == string_views(collection.vector_of_strings_representing_launcher_prefix_commands@),
            already == exists|j: int| 0 <= j < i && is_desktop_wrapper_argument(#[trigger] ps[j]),
        decreases collection.vector_of_strings_representing_launcher_prefix_commands@.len() - i,
    {
        let hit = is_desktop_wrapper_argument_exec(collection.vector_of_strings_representing_launcher_prefix_commands[i].as_str());
        assert(ps[i as int] == collection.vector_of_strings_representing_launcher_prefix_commands@[i as int]@);
        if hit {
            already = true;
        }
        i += 1;
    }
    if !already {
        let mut front: Vec<String> = Vec::new();
        push_string(&mut front, owned("explorer"));
        let arg = concat_chars(&chars_of("/desktop=sandbox,"), &rv);
        push_string(&mut front, string_from_chars(&arg));
        extend_strings(&mut front, &collection.vector_of_strings_representing_launcher_prefix_commands);
        collection.vector_of_strings_representing_launcher_prefix_commands = front;
        // The new first prefix is itself recognized as setting up a desktop,
        // which is what makes a second injection change nothing.
        let lowered = lower_str("explorer");
        proof {
            reveal_strlit("explorer");
            assert("explorer"@.map_values(|c: char| ascii_lowercase_char(c)) =~= "explorer"@);
            assert(lowered@ == "explorer"@);
            let np = string_views(collection.vector_of_strings_representing_launcher_prefix_commands@);
            assert(np[0] == "explorer"@);
            assert(is_desktop_wrapper_argument(np[0]));
        }
        assert(string_views(collection.vector_of_strings_representing_launcher_prefix_commands@) =~= with_virtual_desktop(
            ps,
            resolution@,
        ));
    }
}


// ==========================================
// Stage 6: classification
// ==========================================

/// Why no runnable target could be settled.
#[derive(Debug)]
pub enum TargetResolutionError {
    /// No command-line arguments, and `WINER_EXE_PATH` is empty.
    MissingProfileTarget,
    /// The target is a native Linux program, which is never run.
    NativeLinuxExecutable { path: String },
    /// Neither a host file nor a virtual command was named.
    NoTargetCommand,
}

/// The mathematical form of a [`TargetResolutionError`].
pub enum TargetErrorModel {
    MissingProfileTarget,
    NativeLinuxExecutable(Seq<char>),
    NoTargetCommand,
}

impl View for TargetResolutionError {
    type V = TargetErrorModel;

    open spec fn view(&self) -> TargetErrorModel {
        match self {
            TargetResolutionError::MissingProfileTarget => TargetErrorModel::MissingProfileTarget,
            TargetResolutionError::NativeLinuxExecutable { path } => TargetErrorModel::NativeLinuxExecutable(path@),
            TargetResolutionError::NoTargetCommand => TargetErrorModel::NoTargetCommand,
        }
    }
}

/// The view of a resolution result.
pub open spec fn resolution_view(r: Result<TargetSpecification, TargetResolutionError>) -> Result<TargetModel, TargetErrorModel> {
    match r {
        Ok(t) => Ok(t@),
        Err(e) => Err(e@),
    }
}

/// The found file is the Wine engine itself (both canonicalize to the same
/// path): a multi-call tool such as `winecfg`.
pub open spec fn is_engine_alias(host: HostSnapshot, path: Seq<char>, engine: Seq<char>) -> bool {
    host.canonical(path) is Some && host.canonical(path) == host.canonical(engine)
}

/// The classification of a scan.  A found file that is the engine itself is
/// a multi-call tool (and no host path is kept for it); a found native
/// Linux program is refused; any other found file is a Windows program.
/// When nothing was found, the first prefix becomes a virtual Wine command
/// and the other prefixes move in front of the arguments; with no prefix
/// there is no target.
pub open spec fn settle_target(host: HostSnapshot, st: ScanModel, engine: Seq<char>) -> Result<TargetModel, TargetErrorModel> {
    if st.found {
        let p = st.primary_path->0;
        let raw = st.primary_raw->0;
        if is_engine_alias(host, p, engine) {
            Ok(TargetModel {
                raw_target: raw,
                primary_path: None,
                prefixes: st.prefixes,
                secondary_sources: st.secondary,
                category: CategoryModel::WineMulticallTool(raw),
                remaining: st.remaining,
            })
        } else if host.is_linux_elf(p) {
            Err(TargetErrorModel::NativeLinuxExecutable(p))
        } else {
            Ok(TargetModel {
                raw_target: raw,
                primary_path: Some(p),
                prefixes: st.prefixes,
                secondary_sources: st.secondary,
                category: CategoryModel::PhysicalWindowsExecutable(p),
                remaining: st.remaining,
            })
        }
    } else if st.prefixes.len() > 0 {
        Ok(TargetModel {
            raw_target: st.prefixes[0],
            primary_path: st.primary_path,
            prefixes: Seq::empty(),
            secondary_sources: st.secondary,
            category: CategoryModel::VirtualWineCommand(st.prefixes[0]),
            remaining: st.prefixes.drop_first() + st.remaining,
        })
    } else {
        Err(TargetErrorModel::NoTargetCommand)
    }
}

/// Settles what the scanned target is.
pub fn disambiguate_target_intent_and_build_specification(
    collection: IntermediateScannedArgumentsCollection,
    engine: &str,
    host: &HostSnapshot,
) -> (r: Result<TargetSpecification, TargetResolutionError>)
    requires
        scan_well_formed(collection@),
    ensures
        resolution_view(r) == settle_target(*host, collection@, engine@),
{
    let ghost st = collection@;
    let IntermediateScannedArgumentsCollection {
        option_representing_primary_target_raw_input: primary_raw,
        option_representing_absolute_path_to_primary_target_executable: primary_path,
        vector_of_strings_representing_launcher_prefix_commands: prefixes,
        vector_of_path_bufs_representing_secondary_penetration_mount_sources: secondary,
        vector_of_strings_representing_remaining_cli_arguments: remaining,
        boolean_flag_indicating_primary_target_found: found,
    } = collection;
    if found {
        let p = match primary_path {
            Some(p) => p,
            None => {
                assert(false);
                return Err(TargetResolutionError::NoTargetCommand);
            },
        };
        let raw = match primary_raw {
            Some(x) => x,
            None => {
                assert(false);
                return Err(TargetResolutionError::NoTargetCommand);
            },
        };
        let alias = match (host.canonical_of(p.as_str()), host.canonical_of(engine)) {
            (Some(a), Some(b)) => str_equal(a.as_str(), b.as_str()),
            _ => false,
        };
        if alias {
            let name = raw.clone();
            Ok(TargetSpecification {
                string_representing_raw_user_input_target: raw,
                option_representing_absolute_path_to_primary_target_executable: None,
                vector_of_strings_representing_launcher_prefix_commands: prefixes,
                vector_of_path_bufs_representing_secondary_penetration_mount_sources: secondary,
                target_category_enum_representing_execution_type: TargetCategory::WineMulticallTool {
                    string_representing_subcommand_name: name,
                },
                vector_of_strings_representing_remaining_cli_arguments: remaining,
            })
        } else if host.is_linux_elf_at(p.as_str()) {
            Err(TargetResolutionError::NativeLinuxExecutable { path: p })
        } else {
            let path = p.clone();
            Ok(TargetSpecification {
                string_representing_raw_user_input_target: raw,
                option_representing_absolute_path_to_primary_target_executable: Some(p),
                vector_of_strings_representing_launcher_prefix_commands: prefixes,
                vector_of_path_bufs_representing_secondary_penetration_mount_sources: secondary,
                target_category_enum_representing_execution_type: TargetCategory::PhysicalWindowsExecutable {
                    path_buf_representing_host_absolute_path: path,
                },
                vector_of_strings_representing_remaining_cli_arguments: remaining,
            })
        }
    } else if prefixes.len() > 0 {
        let command = prefixes[0].clone();
        let mut new_remaining = copy_strings_from(&prefixes, 1);
        extend_strings(&mut new_remaining, &remaining);
        let raw = command.clone();
        let r = TargetSpecification {
            string_representing_raw_user_input_target: raw,
            option_representing_absolute_path_to_primary_target_executable: primary_path,
            vector_of_strings_representing_launcher_prefix_commands: Vec::new(),
            vector_of_path_bufs_representing_secondary_penetration_mount_sources: secondary,
            target_category_enum_representing_execution_type: TargetCategory::VirtualWineCommand {
                string_representing_command_name: command,
            },
            vector_of_strings_representing_remaining_cli_arguments: new_remaining,
        };
        assert(r@.prefixes =~= Seq::<Seq<char>>::empty());
        assert(string_views(prefixes@).skip(1) =~= st.prefixes.drop_first());
        Ok(r)
    } else {
        Err(TargetResolutionError::NoTargetCommand)
    }
}

// ==========================================
// The whole resolution
// ==========================================

/// The directories a target is searched for in, for a given engine.
pub open spec fn target_search_directories(engine: Seq<char>, env: HostEnvironment) -> Seq<Seq<char>> {
    search_directories(path_parent(engine), env)
}

/// The whole target resolution: the engine binary is resolved first and its
/// directory searched first for targets; then the arguments (or the
/// profile) are scanned, a virtual desktop is put in front if configured,
/// and the target is classified.
pub open spec fn target_resolution(
    args: Seq<Seq<char>>,
    pyramid: ConfigurationPyramid,
    cli_wine: Option<Seq<char>>,
    env: HostEnvironment,
    host: HostSnapshot,
) -> Result<TargetModel, TargetErrorModel> {
    let engine = engine_binary_path(host, custom_wine_binary(pyramid, cli_wine), env);
    match scan_all(host, args, pyramid, target_search_directories(engine, env)) {
        None => Err(TargetErrorModel::MissingProfileTarget),
        Some(st) => settle_target(
            host,
            ScanModel { prefixes: with_virtual_desktop(st.prefixes, pyramid.resolved_value("WINER_DESKTOP"@, ""@)), ..st },
            engine,
        ),
    }
}

/// Resolves and classifies the target of a run.
pub fn resolve_target_executable_and_validate_via_multi_arg_scanner(
    args: Vec<String>,
    context: &SandboxContext,
    cli_wine: &Option<String>,
    env: &HostEnvironment,
    host: &HostSnapshot,
) -> (r: Result<TargetSpecification, TargetResolutionError>)
    ensures
        resolution_view(r) == target_resolution(
            string_views(args@),
            context.configuration_pyramid_representing_all_layers,
            opt_view(*cli_wine),
            *env,
            *host,
        ),
{
    let pyramid = &context.configuration_pyramid_representing_all_layers;
    let wine = custom_wine_binary_of(pyramid, cli_wine);
    let engine = resolve_engine_binary_path(wine.as_str(), env, host);
    let dirs = search_directories_of(parent_path(engine.as_str()), env);
    match scan_and_collect_physical_entities_and_prefixes(args, pyramid, &dirs, host) {
        None => Err(TargetResolutionError::MissingProfileTarget),
        Some(mut collection) => {
            inject_virtual_desktop_prefix_if_configured_and_safe(&mut collection, pyramid);
            disambiguate_target_intent_and_build_specification(collection, engine.as_str(), host)
        },
    }
}

/// The strings a resolution probes for: the arguments, or else the
/// profile's target and prefix tokens.
pub open spec fn probed_target_strings(args: Seq<Seq<char>>, pyramid: ConfigurationPyramid) -> Seq<Seq<char>> {
    if args.len() > 0 {
        args
    } else {
        seq![pyramid.resolved_value("WINER_EXE_PATH"@, ""@)] + split_whitespace(pyramid.resolved_value("WINER_EXE_PRE"@, ""@))
    }
}

/// The probe queries for a list of strings.
pub open spec fn probe_queries_all(raws: Seq<Seq<char>>, dirs: Seq<Seq<char>>) -> Seq<Seq<char>>
    decreases raws.len(),
{
    if raws.len() == 0 {
        Seq::empty()
    } else {
        probe_queries_all(raws.drop_last(), dirs) + probe_queries(raws.last(), dirs)
    }
}

/// The host paths whose facts a resolution reads, given what the snapshot
/// already says (the engine's location decides where targets are searched).
pub open spec fn target_resolution_queries(
    args: Seq<Seq<char>>,
    pyramid: ConfigurationPyramid,
    cli_wine: Option<Seq<char>>,
    env: HostEnvironment,
    host: HostSnapshot,
) -> Seq<Seq<char>> {
    let wine = custom_wine_binary(pyramid, cli_wine);
    let engine = engine_binary_path(host, wine, env);
    engine_binary_queries(wine, env) + seq![engine] + probe_queries_all(
        probed_target_strings(args, pyramid),
        target_search_directories(engine, env),
    )
}

/// The host paths whose facts a resolution reads.
pub fn target_resolution_host_queries(
    args: &Vec<String>,
    context: &SandboxContext,
    cli_wine: &Option<String>,
    env: &HostEnvironment,
    host: &HostSnapshot,
) -> (r: Vec<String>)
    ensures
        string_views(r@) == target_resolution_queries(
            string_views(args@),
            context.configuration_pyramid_representing_all_layers,
            opt_view(*cli_wine),
            *env,
            *host,
        ),
{
    let pyramid = &context.configuration_pyramid_representing_all_layers;
    let wine = custom_wine_binary_of(pyramid, cli_wine);
    let engine = resolve_engine_binary_path(wine.as_str(), env, host);
    let dirs = search_directories_of(parent_path(engine.as_str()), env);
    let mut r: Vec<String> = Vec::new();
    push_engine_binary_queries(&mut r, wine.as_str(), env);
    push_string(&mut r, engine.clone());
    assert(string_views(r@) =~= engine_binary_queries(wine@, *env) + seq![engine@]);
    let mut raws: Vec<String> = Vec::new();
    if args.len() > 0 {
        extend_strings(&mut raws, args);
        assert(string_views(raws@) =~= string_views(args@));
    } else {
        push_string(&mut raws, pyramid.resolve_configuration_value("WINER_EXE_PATH", ""));
        let pre = pyramid.resolve_configuration_value("WINER_EXE_PRE", "");
        let tokens = words_of(pre.as_str());
        extend_strings(&mut raws, &tokens);
    }
    assert(string_views(raws@) =~= probed_target_strings(string_views(args@), *pyramid));
    let ghost rv = string_views(raws@);
    let ghost start = string_views(r@);
    let mut i: usize = 0;
    assert(rv.take(0) =~= Seq::<Seq<char>>::empty());
    assert(start =~= start + probe_queries_all(rv.take(0), string_views(dirs@)));
    while i < raws.len()
        invariant
            i <= raws@.len(),
            rv == string_views(raws@),
            string_views(r@) == start + probe_queries_all(rv.take(i as int), string_views(dirs@)),
        decreases raws@.len() - i,
    {
        assert(rv.take(i + 1).drop_last() =~= rv.take(i as int));
        assert(rv.take(i + 1).last() == raws@[i as int]@);
        push_probe_queries(&mut r, raws[i].as_str(), &dirs);
        assert(string_views(r@) =~= start + probe_queries_all(rv.take(i + 1), string_views(dirs@)));
        i += 1;
    }
    assert(rv.take(rv.len() as int) =~= rv);
    r
}

// ==========================================
// The sandbox identity
// ==========================================

/// The `WINEPREFIX` an early, file-less pyramid sees: from the environment,
/// else from the global configuration, with `~` expanded.
pub open spec fn early_wine_prefix(
    global: Map<Seq<char>, Seq<char>>,
    environment_variables: Seq<(Seq<char>, Seq<char>)>,
    home: Option<Seq<char>>,
) -> Seq<char> {
    expand_tilde(
        match first_defined(
            seq![forwarded_environment(environment_variables), Map::empty(), Map::empty(), global],
            "WINEPREFIX"@,
        ) {
            Some(v) => v,
            None => ""@,
        },
        home,
    )
}

/// The path a first argument names for identity purposes: its absolute
/// form, or, when that does not exist and the argument does not end in
/// `.exe`, the absolute form of the argument with `.exe` appended if that
/// exists.
pub open spec fn identity_target_path(host: HostSnapshot, first: Seq<char>) -> Seq<char> {
    let p1 = host.absolute(first);
    if !host.path_exists(p1) && !ends_with(lowercase_of(first), ".exe"@) {
        let p2 = host.absolute(first + ".exe"@);
        if host.path_exists(p2) {
            p2
        } else {
            p1
        }
    } else {
        p1
    }
}

/// The identity of the sandbox: `WINER_ID` from the environment, else from
/// the global configuration; else `slug-fingerprint` of the absolute
/// `WINEPREFIX` when one is set; else of the first argument's path; none
/// when there is nothing to name it after.
pub open spec fn sandbox_identity(
    args: Seq<Seq<char>>,
    environment_identifier: Option<Seq<char>>,
    global: Map<Seq<char>, Seq<char>>,
    environment_variables: Seq<(Seq<char>, Seq<char>)>,
    home: Option<Seq<char>>,
    host: HostSnapshot,
) -> Option<Seq<char>> {
    match environment_identifier {
        Some(i) => Some(i),
        None => if global.dom().contains("WINER_ID"@) {
            Some(global["WINER_ID"@])
        } else {
            let prefix = early_wine_prefix(global, environment_variables, home);
            if prefix.len() > 0 {
                Some(identity_token(host.absolute(prefix)))
            } else if args.len() > 0 {
                Some(identity_token(identity_target_path(host, args[0])))
            } else {
                None
            }
        },
    }
}

/// The host paths whose facts the identity reads.
pub open spec fn sandbox_identity_queries(
    args: Seq<Seq<char>>,
    global: Map<Seq<char>, Seq<char>>,
    environment_variables: Seq<(Seq<char>, Seq<char>)>,
    home: Option<Seq<char>>,
) -> Seq<Seq<char>> {
    seq![early_wine_prefix(global, environment_variables, home)] + (if args.len() > 0 {
        seq![args[0], args[0] + ".exe"@]
    } else {
        Seq::<Seq<char>>::empty()
    })
}

/// Derives the identity of the sandbox (`None`: nothing to name it after).
/// `environment_identifier` is `WINER_ID` from the environment,
/// `environment_variables` the whole process environment, `home` the value
/// of `HOME`.
pub fn resolve_sandbox_identity(
    args: &Vec<String>,
    environment_identifier: Option<String>,
    global: &ConfigurationLayer,
    environment_variables: &Vec<(String, String)>,
    home: Option<String>,
    host: &HostSnapshot,
) -> (r: Option<String>)
    ensures
        opt_view(r) == sandbox_identity(
            string_views(args@),
            opt_view(environment_identifier),
            global@,
            pair_views(environment_variables@),
            opt_view(home),
            *host,
        ),
        environment_identifier is None && !global@.dom().contains("WINER_ID"@) ==> (r matches Some(id) ==> forall|i: int|
            0 <= i < id@.len() ==> id@[i] != '/'),
{
    match environment_identifier {
        Some(i) => {
            return Some(i);
        },
        None => {},
    }
    match global.get("WINER_ID") {
        Some(i) => {
            return Some(i);
        },
        None => {},
    }
    let prefix = early_prefix_exec(global, environment_variables, home);
    if chars_of(prefix.as_str()).len() > 0 {
        let p = host.absolute_of(prefix.as_str());
        return Some(identity_token_of_path(p.as_str()));
    }
    if args.len() > 0 {
        let p = identity_target_path_exec(host, args[0].as_str());
        return Some(identity_token_of_path(p.as_str()));
    }
    None
}

fn early_prefix_exec(global: &ConfigurationLayer, environment_variables: &Vec<(String, String)>, home: Option<String>) -> (r: String)
    ensures
        r@ == early_wine_prefix(global@, pair_views(environment_variables@), opt_view(home)),
{
    let mut g = ConfigurationLayer::new();
    let keys = global.keys();
    let mut i: usize = 0;
    while i < keys.len()
        invariant
            i <= keys@.len(),
            string_views(keys@).to_set() == global@.dom(),
            g@ == global@.restrict(string_views(keys@).take(i as int).to_set()),
        decreases keys@.len() - i,
    {
        let k = keys[i].clone();
        let v = match global.get(k.as_str()) {
            Some(v) => v,
            None => {
                assert(string_views(keys@)[i as int] == k@);
                assert(string_views(keys@).to_set().contains(k@));
                assert(false);
                owned("")
            },
        };
        let ghost old_g = g@;
        g.insert(k, v);
        proof {
            string_views(keys@).take(i as int).lemma_push_to_set_commute(keys@[i as int]@);
            assert(string_views(keys@).take(i + 1) =~= string_views(keys@).take(i as int).push(keys@[i as int]@));
        }
        assert(g@ =~= global@.restrict(string_views(keys@).take(i + 1).to_set()));
        i += 1;
    }
    assert(string_views(keys@).take(keys@.len() as int) =~= string_views(keys@));
    assert(g@ =~= global@);
    let pyramid = ConfigurationPyramid::new(g, ConfigurationLayer::new(), ConfigurationLayer::new(), environment_variables, home);
    let r = pyramid.resolve_configuration_value("WINEPREFIX", "");
    assert(pyramid.layers() =~= seq![forwarded_environment(pair_views(environment_variables@)), Map::empty(), Map::empty(), global@]);
    r
}

fn identity_target_path_exec(host: &HostSnapshot, first: &str) -> (r: String)
    ensures
        r@ == identity_target_path(*host, first@),
{
    let p1 = host.absolute_of(first);
    let l = lower_str(first);
    if !host.exists_at(p1.as_str()) && !chars_end_with_str(&l, ".exe") {
        let with_exe = string_from_chars(&concat_chars(&chars_of(first), &chars_of(".exe")));
        let p2 = host.absolute_of(with_exe.as_str());
        if host.exists_at(p2.as_str()) {
            p2
        } else {
            p1
        }
    } else {
        p1
    }
}

/// The host paths whose facts the identity reads.
pub fn sandbox_identity_host_queries(
    args: &Vec<String>,
    global: &ConfigurationLayer,
    environment_variables: &Vec<(String, String)>,
    home: Option<String>,
) -> (r: Vec<String>)
    ensures
        string_views(r@) == sandbox_identity_queries(
            string_views(args@),
            global@,
            pair_views(environment_variables@),
            opt_view(home),
        ),
{
    let mut r: Vec<String> = Vec::new();
    push_string(&mut r, early_prefix_exec(global, environment_variables, home));
    if args.len() > 0 {
        push_string(&mut r, args[0].clone());
        let with_exe = string_from_chars(&concat_chars(&chars_of(args[0].as_str()), &chars_of(".exe")));
        push_string(&mut r, with_exe);
    }
    assert(string_views(r@) =~= sandbox_identity_queries(
        string_views(args@),
        global@,
        pair_views(environment_variables@),
        opt_view(home),
    ));
    r
}

// ==========================================
// Laws of the resolution
// ==========================================

/// The arguments a scan has placed, in order: the prefixes, the target (once
/// found), then the target's arguments.
pub open spec fn scanned_arguments(st: ScanModel) -> Seq<Seq<char>> {
    st.prefixes + (if st.found { seq![st.primary_raw->0] } else { Seq::<Seq<char>>::empty() }) + st.remaining
}

/// Scanning the command line drops and reorders nothing: every argument is
/// a prefix, the target, or — once the target is found — an argument of the
/// target, in the order given; before a target is found there are no target
/// arguments.
pub proof fn lemma_scan_keeps_every_argument(host: HostSnapshot, args: Seq<Seq<char>>, dirs: Seq<Seq<char>>)
    ensures
        scanned_arguments(scan_command_line(host, args, dirs)) == args,
        !scan_command_line(host, args, dirs).found ==> scan_command_line(host, args, dirs).remaining.len() == 0,
        scan_well_formed(scan_command_line(host, args, dirs)),
    decreases args.len(),
{
    if args.len() == 0 {
        assert(scanned_arguments(empty_scan()) =~= args);
    } else {
        let prev = scan_command_line(host, args.drop_last(), dirs);
        lemma_scan_keeps_every_argument(host, args.drop_last(), dirs);
        let st = scan_command_line(host, args, dirs);
        assert(args =~= args.drop_last().push(args.last()));
        if !prev.found {
            assert(prev.remaining =~= Seq::<Seq<char>>::empty());
        }
        assert(scanned_arguments(st) =~= scanned_arguments(prev).push(args.last()));
    }
}

/// A resolution never settles on a native Linux program: such a target is
/// refused with an error instead.
pub proof fn lemma_resolution_never_yields_blocked_target(
    args: Seq<Seq<char>>,
    pyramid: ConfigurationPyramid,
    cli_wine: Option<Seq<char>>,
    env: HostEnvironment,
    host: HostSnapshot,
)
    ensures
        target_resolution(args, pyramid, cli_wine, env, host) matches Ok(t) ==> !(t.category is HostLinuxExecutableBlock),
{
}

/// Every command-line argument after the target reaches the target,
/// untouched and in order: when the target is a host file (a Windows
/// program or one of Wine's own tools) named on the command line, its
/// arguments are exactly the arguments that follow it there.
pub proof fn lemma_arguments_after_the_target_are_forwarded(
    args: Seq<Seq<char>>,
    pyramid: ConfigurationPyramid,
    cli_wine: Option<Seq<char>>,
    env: HostEnvironment,
    host: HostSnapshot,
)
    requires
        args.len() > 0,
    ensures
        target_resolution(args, pyramid, cli_wine, env, host) matches Ok(t) ==> (t.category is VirtualWineCommand
            || exists|k: int| 0 <= k < args.len() && args[k] == t.raw_target && t.remaining == #[trigger] args.skip(k + 1)),
{
    let engine = engine_binary_path(host, custom_wine_binary(pyramid, cli_wine), env);
    let dirs = target_search_directories(engine, env);
    let st = scan_command_line(host, args, dirs);
    lemma_scan_keeps_every_argument(host, args, dirs);
    if st.found {
        let k = st.prefixes.len() as int;
        let raw = st.primary_raw->0;
        assert(args == st.prefixes + seq![raw] + st.remaining);
        assert(args[k] == raw);
        assert(args.skip(k + 1) =~= st.remaining);
    }
}

/// `p` is an observed regular file, or the absolute form of one.
pub open spec fn names_found_file(host: HostSnapshot, p: Seq<char>) -> bool {
    is_regular_file(host, p) || exists|q: Seq<char>| is_regular_file(host, q) && #[trigger] host.absolute(q) == p
}

proof fn lemma_observed_absolute_is_absolute(host: HostSnapshot, q: Seq<char>)
    requires
        host.absolute_forms_are_absolute(),
        host.observed(q),
    ensures
        crate::host_path::is_absolute_path(host.absolute(q)),
{
    crate::host_snapshot::lemma_found_record_is_recorded(host.records@, q);
}

proof fn lemma_first_file_in_is_absolute(host: HostSnapshot, dirs: Seq<Seq<char>>, name: Seq<char>)
    requires
        host.absolute_forms_are_absolute(),
    ensures
        first_file_in(host, dirs, name) matches Some(p) ==> crate::host_path::is_absolute_path(p) && names_found_file(host, p),
    decreases dirs.len(),
{
    if dirs.len() > 0 {
        let q = path_join(dirs[0], name);
        if is_regular_file(host, q) {
            lemma_observed_absolute_is_absolute(host, q);
        } else {
            lemma_first_file_in_is_absolute(host, dirs.drop_first(), name);
        }
    }
}

proof fn lemma_probe_names_is_absolute(host: HostSnapshot, names: Seq<Seq<char>>, dirs: Seq<Seq<char>>)
    requires
        host.absolute_forms_are_absolute(),
    ensures
        probe_names(host, names, dirs) matches Some(p) ==> crate::host_path::is_absolute_path(p) && names_found_file(host, p),
    decreases names.len(),
{
    if names.len() > 0 {
        let name = names[0];
        if is_explicit_path(name) {
            let p = host.absolute(name);
            if is_regular_file(host, p) {
                if host.observed(name) {
                    lemma_observed_absolute_is_absolute(host, name);
                }
            }
        } else {
            lemma_first_file_in_is_absolute(host, dirs, name);
        }
        lemma_probe_names_is_absolute(host, names.drop_first(), dirs);
    }
}

/// When every recorded absolute form is absolute (the working directory
/// could be read), a probe for a target yields an absolute path that is an
/// observed regular file or the absolute form of one.
pub proof fn lemma_probe_result_is_an_absolute_found_file(host: HostSnapshot, raw: Seq<char>, dirs: Seq<Seq<char>>)
    requires
        host.absolute_forms_are_absolute(),
    ensures
        probed_entity(host, raw, dirs) matches Some(p) ==> crate::host_path::is_absolute_path(p) && names_found_file(host, p),
{
    lemma_probe_names_is_absolute(host, probe_candidate_names(raw), dirs);
}

proof fn lemma_scan_primary_is_absolute(host: HostSnapshot, args: Seq<Seq<char>>, dirs: Seq<Seq<char>>)
    requires
        host.absolute_forms_are_absolute(),
    ensures
        scan_command_line(host, args, dirs).primary_path matches Some(p) ==> crate::host_path::is_absolute_path(p)
            && names_found_file(host, p),
    decreases args.len(),
{
    if args.len() > 0 {
        lemma_scan_primary_is_absolute(host, args.drop_last(), dirs);
        lemma_probe_result_is_an_absolute_found_file(host, args.last(), dirs);
    }
}

proof fn lemma_prefix_tokens_keep_primary(host: HostSnapshot, st: ScanModel, tokens: Seq<Seq<char>>, dirs: Seq<Seq<char>>)
    ensures
        scan_prefix_tokens(host, st, tokens, dirs).primary_path == st.primary_path,
        scan_prefix_tokens(host, st, tokens, dirs).primary_raw == st.primary_raw,
        scan_prefix_tokens(host, st, tokens, dirs).found == st.found,
    decreases tokens.len(),
{
    if tokens.len() > 0 {
        lemma_prefix_tokens_keep_primary(host, st, tokens.drop_last(), dirs);
    }
}

/// When every recorded absolute form is absolute, a Windows program that a
/// resolution settles on is named by an absolute path, which is an observed
/// regular file or the absolute form of one.
pub proof fn lemma_resolved_program_is_an_absolute_found_file(
    args: Seq<Seq<char>>,
    pyramid: ConfigurationPyramid,
    cli_wine: Option<Seq<char>>,
    env: HostEnvironment,
    host: HostSnapshot,
)
    requires
        host.absolute_forms_are_absolute(),
    ensures
        target_resolution(args, pyramid, cli_wine, env, host) matches Ok(t) ==> (t.category matches CategoryModel::PhysicalWindowsExecutable(p)
            ==> crate::host_path::is_absolute_path(p) && names_found_file(host, p)),
{
    let engine = engine_binary_path(host, custom_wine_binary(pyramid, cli_wine), env);
    let dirs = target_search_directories(engine, env);
    if args.len() > 0 {
        lemma_scan_primary_is_absolute(host, args, dirs);
        lemma_scan_keeps_every_argument(host, args, dirs);
    } else {
        let exe = pyramid.resolved_value("WINER_EXE_PATH"@, ""@);
        if exe.len() > 0 {
            let probe = probed_entity(host, exe, dirs);
            lemma_probe_result_is_an_absolute_found_file(host, exe, dirs);
            let st0 = ScanModel { primary_raw: Some(exe), primary_path: probe, found: probe is Some, ..empty_scan() };
            let tokens = split_whitespace(pyramid.resolved_value("WINER_EXE_PRE"@, ""@));
            lemma_prefix_tokens_keep_primary(host, st0, tokens, dirs);
            let st1 = scan_prefix_tokens(host, st0, tokens, dirs);
            let st = ScanModel { remaining: split_whitespace(pyramid.resolved_value("WINER_EXE_ARGS"@, ""@)), ..st1 };
            assert(scan_all(host, args, pyramid, dirs) == Some(st));
            assert(st.primary_path == probe);
            assert(st.found == probe is Some);
        }
    }
    match scan_all(host, args, pyramid, dirs) {
        None => {},
        Some(st) => {
            let st2 = ScanModel { prefixes: with_virtual_desktop(st.prefixes, pyramid.resolved_value("WINER_DESKTOP"@, ""@)), ..st };
            assert(target_resolution(args, pyramid, cli_wine, env, host) == settle_target(host, st2, engine));
            assert(st2.primary_path == st.primary_path);
            assert(st2.found == st.found);
        },
    }
}

// ==========================================
// Laws of the command line, the profile and the identity
// ==========================================

/// The Wine binaries split off the front of a command line are exactly
/// `wine`, `wine64` and paths ending in `/wine` or `/wine64` (compared in
/// lower case): a custom engine such as `~/runners/ge/bin/wine` is
/// recognized, and nothing else is.
pub proof fn lemma_wine_binaries_recognized(lower: Seq<char>)
    ensures
        ends_with(lower, "/wine"@) ==> names_wine_binary(lower),
        ends_with(lower, "/wine64"@) ==> names_wine_binary(lower),
        lower == "wine"@ ==> names_wine_binary(lower),
        lower == "wine64"@ ==> names_wine_binary(lower),
        names_wine_binary(lower) ==> (lower == "wine"@ || lower == "wine64"@ || ends_with(lower, "/wine"@)
            || ends_with(lower, "/wine64"@)),
{
}

/// The prefix a `WINER_EXE_PRE` token contributes: the host file it names
/// (by its absolute path), or the token as written.
spec fn profile_prefix_of(host: HostSnapshot, token: Seq<char>, dirs: Seq<Seq<char>>) -> Seq<char> {
    match probed_entity(host, token, dirs) {
        Some(p) => p,
        None => token,
    }
}

proof fn lemma_prefix_tokens_prefixes(host: HostSnapshot, st: ScanModel, tokens: Seq<Seq<char>>, dirs: Seq<Seq<char>>)
    ensures
        scan_prefix_tokens(host, st, tokens, dirs).prefixes.len() == st.prefixes.len() + tokens.len(),
        forall|i: int| 0 <= i < st.prefixes.len() ==> #[trigger] scan_prefix_tokens(host, st, tokens, dirs).prefixes[i] == st.prefixes[i],
        forall|i: int| 0 <= i < tokens.len() ==> #[trigger] scan_prefix_tokens(host, st, tokens, dirs).prefixes[st.prefixes.len() + i]
            == profile_prefix_of(host, tokens[i], dirs),
    decreases tokens.len(),
{
    if tokens.len() > 0 {
        let prev = tokens.drop_last();
        lemma_prefix_tokens_prefixes(host, st, prev, dirs);
        let q = scan_prefix_tokens(host, st, prev, dirs).prefixes;
        let r = scan_prefix_tokens(host, st, tokens, dirs).prefixes;
        assert(r == q.push(profile_prefix_of(host, tokens.last(), dirs)));
        assert forall|i: int| 0 <= i < tokens.len() implies #[trigger] r[st.prefixes.len() + i] == profile_prefix_of(
            host,
            tokens[i],
            dirs,
        ) by {
            if i < prev.len() {
                assert(prev[i] == tokens[i]);
                assert(r[st.prefixes.len() + i] == q[st.prefixes.len() + i]);
            }
        }
    }
}

/// In profile mode the launcher prefixes are the tokens of
/// `WINER_EXE_PRE`, one for one and in order, each replaced by the absolute
/// path of the host file it names when it names one.
pub proof fn lemma_profile_prefixes_are_found_files(host: HostSnapshot, pyramid: ConfigurationPyramid, dirs: Seq<Seq<char>>)
    ensures
        scan_profile(host, pyramid, dirs) matches Some(st) ==> {
            let tokens = split_whitespace(pyramid.resolved_value("WINER_EXE_PRE"@, ""@));
            &&& st.prefixes.len() == tokens.len()
            &&& forall|i: int| 0 <= i < tokens.len() ==> #[trigger] st.prefixes[i] == match probed_entity(host, tokens[i], dirs) {
                Some(p) => p,
                None => tokens[i],
            }
        },
{
    let exe = pyramid.resolved_value("WINER_EXE_PATH"@, ""@);
    if exe.len() > 0 {
        let probe = probed_entity(host, exe, dirs);
        let st0 = ScanModel { primary_raw: Some(exe), primary_path: probe, found: probe is Some, ..empty_scan() };
        let tokens = split_whitespace(pyramid.resolved_value("WINER_EXE_PRE"@, ""@));
        lemma_prefix_tokens_prefixes(host, st0, tokens, dirs);
        let st = scan_profile(host, pyramid, dirs)->0;
        assert(st.prefixes == scan_prefix_tokens(host, st0, tokens, dirs).prefixes);
        assert forall|i: int| 0 <= i < tokens.len() implies #[trigger] st.prefixes[i] == match probed_entity(host, tokens[i], dirs) {
            Some(p) => p,
            None => tokens[i],
        } by {
            assert(st.prefixes[0 + i] == profile_prefix_of(host, tokens[i], dirs));
        }
    }
}

proof fn lemma_unset_variable_not_forwarded(vars: Seq<(Seq<char>, Seq<char>)>, key: Seq<char>)
    requires
        forall|i: int| 0 <= i < vars.len() ==> (#[trigger] vars[i]).0 != key,
    ensures
        !forwarded_environment(vars).dom().contains(key),
    decreases vars.len(),
{
    if vars.len() > 0 {
        let prev = vars.drop_last();
        assert forall|i: int| 0 <= i < prev.len() implies (#[trigger] prev[i]).0 != key by {
            assert(prev[i] == vars[i]);
        }
        lemma_unset_variable_not_forwarded(prev, key);
        assert(vars[vars.len() - 1].0 != key);
    }
}

/// Without `WINER_ID` (in the environment or in `config.toml`) and without
/// `WINEPREFIX` in the environment, a `WINEPREFIX` in `config.toml` names
/// the sandbox: the identity is the slug and fingerprint of that prefix
/// (`~` expanded, made absolute), whatever the command line holds.
pub proof fn lemma_identity_follows_global_wine_prefix(
    args: Seq<Seq<char>>,
    global: Map<Seq<char>, Seq<char>>,
    environment_variables: Seq<(Seq<char>, Seq<char>)>,
    home: Option<Seq<char>>,
    host: HostSnapshot,
)
    requires
        !global.dom().contains("WINER_ID"@),
        forall|i: int| 0 <= i < environment_variables.len() ==> (#[trigger] environment_variables[i]).0 != "WINEPREFIX"@,
        global.dom().contains("WINEPREFIX"@),
        expand_tilde(global["WINEPREFIX"@], home).len() > 0,
    ensures
        sandbox_identity(args, None, global, environment_variables, home, host) == Some(
            crate::file_system_utilities::slug_of(host.absolute(expand_tilde(global["WINEPREFIX"@], home))) + "-"@
                + crate::file_system_utilities::short_fingerprint(host.absolute(expand_tilde(global["WINEPREFIX"@], home))),
        ),
{
    lemma_unset_variable_not_forwarded(environment_variables, "WINEPREFIX"@);
    reveal_with_fuel(first_defined, 5);
    let l = seq![forwarded_environment(environment_variables), Map::<Seq<char>, Seq<char>>::empty(), Map::<Seq<char>, Seq<char>>::empty(), global];
    assert(l.drop_first() =~= seq![Map::<Seq<char>, Seq<char>>::empty(), Map::<Seq<char>, Seq<char>>::empty(), global]);
    assert(l.drop_first().drop_first() =~= seq![Map::<Seq<char>, Seq<char>>::empty(), global]);
    assert(l.drop_first().drop_first().drop_first() =~= seq![global]);
    assert(first_defined(l, "WINEPREFIX"@) == Some(global["WINEPREFIX"@]));
}

} // verus!
