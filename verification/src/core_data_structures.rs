//! The data that flows between the pipeline stages: configuration layers,
//! the configuration pyramid, target and mount descriptions, the sandbox
//! context, and the snapshot of host file-system facts.
use vstd::prelude::*;
use crate::file_system_utilities::{expand_tilde, expand_tilde_in_configuration_value};
use crate::configuration_management::cascade_value;
use crate::host_path::opt_view;
use crate::text::{chars_of, chars_start_with, starts_with, string_from_chars};

verus! {

// ==========================================
// Configuration layers
// ==========================================

/// Value stored for `key` in a list of key/value pairs: the last pair with
/// that key wins, as with repeated `HashMap::insert`.
pub open spec fn last_value_for(pairs: Seq<(Seq<char>, Seq<char>)>, key: Seq<char>) -> Option<
    Seq<char>,
>
    decreases pairs.len(),
{
    if pairs.len() == 0 {
        None
    } else if pairs.last().0 == key {
        Some(pairs.last().1)
    } else {
        last_value_for(pairs.drop_last(), key)
    }
}

/// The map described by a list of key/value pairs.
pub open spec fn map_of_pairs(pairs: Seq<(Seq<char>, Seq<char>)>) -> Map<Seq<char>, Seq<char>> {
    Map::new(|k: Seq<char>| last_value_for(pairs, k) is Some, |k: Seq<char>| last_value_for(pairs, k)->0)
}

/// The views of a list of string pairs.
pub open spec fn pair_views(v: Seq<(String, String)>) -> Seq<(Seq<char>, Seq<char>)> {
    v.map_values(|e: (String, String)| (e.0@, e.1@))
}

/// The views of a list of strings.
pub open spec fn string_views(v: Seq<String>) -> Seq<Seq<char>> {
    v.map_values(|s: String| s@)
}

/// One flat layer of configuration: a map from keys to values.
pub struct ConfigurationLayer {
    entries: Vec<(String, String)>,
}

impl View for ConfigurationLayer {
    type V = Map<Seq<char>, Seq<char>>;

    closed spec fn view(&self) -> Map<Seq<char>, Seq<char>> {
        map_of_pairs(pair_views(self.entries@))
    }
}

proof fn lemma_last_value_for_in_range(pairs: Seq<(Seq<char>, Seq<char>)>, key: Seq<char>)
    ensures
        last_value_for(pairs, key) is Some <==> exists|i: int|
            0 <= i < pairs.len() && #[trigger] pairs[i].0 == key,
    decreases pairs.len(),
{
    if pairs.len() > 0 {
        lemma_last_value_for_in_range(pairs.drop_last(), key);
        if pairs.last().0 == key {
            assert(pairs[pairs.len() - 1].0 == key);
        } else {
            if exists|i: int| 0 <= i < pairs.len() && #[trigger] pairs[i].0 == key {
                let i = choose|i: int| 0 <= i < pairs.len() && #[trigger] pairs[i].0 == key;
                assert(pairs.drop_last()[i].0 == key);
            }
            if exists|i: int| 0 <= i < pairs.drop_last().len() && #[trigger] pairs.drop_last()[i].0 == key {
                let i = choose|i: int| 0 <= i < pairs.drop_last().len() && #[trigger] pairs.drop_last()[i].0 == key;
                assert(pairs[i].0 == key);
            }
        }
    }
}

impl ConfigurationLayer {
    /// An empty layer.
    pub fn new() -> (r: Self)
        ensures
            r@ == Map::<Seq<char>, Seq<char>>::empty(),
    {
        let r = ConfigurationLayer { entries: Vec::new() };
        assert(r@ =~= Map::<Seq<char>, Seq<char>>::empty());
        r
    }

    /// Sets `key` to `value`, replacing any earlier value.
    pub fn insert(&mut self, key: String, value: String)
        ensures
            final(self)@ == old(self)@.insert(key@, value@),
    {
        let ghost before = pair_views(self.entries@);
        self.entries.push((key, value));
        let ghost after = pair_views(self.entries@);
        assert(after.drop_last() =~= before);
        assert(after.last() == (key@, value@));
        assert(self@ =~= old(self)@.insert(key@, value@));
    }

    /// The value stored for `key`, if any.
    pub fn get(&self, key: &str) -> (r: Option<String>)
        ensures
            opt_view(r) == (if self@.dom().contains(key@) {
                Some(self@[key@])
            } else {
                None::<Seq<char>>
            }),
    {
        let ghost pv = pair_views(self.entries@);
        let mut i: usize = self.entries.len();
        assert(pv.take(pv.len() as int) =~= pv);
        while i > 0
            invariant
                i <= self.entries@.len(),
                pv == pair_views(self.entries@),
                last_value_for(pv, key@) == last_value_for(pv.take(i as int), key@),
            decreases i,
        {
            let ghost t = pv.take(i as int);
            assert(t.drop_last() =~= pv.take(i - 1));
            assert(t.last() == pv[i - 1]);
            if crate::text::str_equal(self.entries[i - 1].0.as_str(), key) {
                return Some(self.entries[i - 1].1.clone());
            }
            i -= 1;
        }
        assert(pv.take(0) =~= Seq::<(Seq<char>, Seq<char>)>::empty());
        None
    }

    /// Whether a value is stored for `key`.
    pub fn contains_key(&self, key: &str) -> (r: bool)
        ensures
            r == self@.dom().contains(key@),
    {
        self.get(key).is_some()
    }

    /// Every key of the layer, each once.
    pub fn keys(&self) -> (r: Vec<String>)
        ensures
            string_views(r@).no_duplicates(),
            string_views(r@).to_set() == self@.dom(),
    {
        let ghost pv = pair_views(self.entries@);
        let mut r: Vec<String> = Vec::new();
        let mut i: usize = 0;
        while i < self.entries.len()
            invariant
                i <= self.entries@.len(),
                pv == pair_views(self.entries@),
                string_views(r@).no_duplicates(),
                forall|k: Seq<char>| #[trigger] string_views(r@).contains(k) <==> exists|j: int|
                    0 <= j < i && #[trigger] pv[j].0 == k,
            decreases self.entries@.len() - i,
        {
            let k = self.entries[i].0.clone();
            let present = contains_string(&r, k.as_str());
            let ghost old_r = r@;
            if !present {
                r.push(k);
                assert(string_views(r@) =~= string_views(old_r).push(pv[i as int].0));
            }
            assert forall|x: Seq<char>| #[trigger] string_views(r@).contains(x) <==> exists|j: int|
                0 <= j < i + 1 && #[trigger] pv[j].0 == x by {
                if string_views(r@).contains(x) {
                    if string_views(old_r).contains(x) {
                        let j = choose|j: int| 0 <= j < i && #[trigger] pv[j].0 == x;
                        assert(pv[j].0 == x);
                    } else {
                        assert(pv[i as int].0 == x);
                    }
                }
                if exists|j: int| 0 <= j < i + 1 && #[trigger] pv[j].0 == x {
                    let j = choose|j: int| 0 <= j < i + 1 && #[trigger] pv[j].0 == x;
                    if j < i {
                        assert(string_views(old_r).contains(x));
                        let m = choose|m: int| 0 <= m < string_views(old_r).len() && string_views(old_r)[m] == x;
                        assert(string_views(r@)[m] == x);
                    } else {
                        if !present {
                            assert(string_views(r@)[string_views(r@).len() - 1] == x);
                        }
                    }
                }
            }
            i += 1;
        }
        proof {
            assert forall|k: Seq<char>| string_views(r@).to_set().contains(k) <==> self@.dom().contains(k) by {
                lemma_last_value_for_in_range(pv, k);
            }
            assert(string_views(r@).to_set() =~= self@.dom());
        }
        r
    }
}

/// Whether `v` holds a string equal to `s`.
pub fn contains_string(v: &Vec<String>, s: &str) -> (r: bool)
    ensures
        r == string_views(v@).contains(s@),
{
    let mut i: usize = 0;
    while i < v.len()
        invariant
            i <= v@.len(),
            forall|j: int| 0 <= j < i ==> v@[j]@ != s@,
        decreases v@.len() - i,
    {
        if crate::text::str_equal(v[i].as_str(), s) {
            assert(string_views(v@)[i as int] == s@);
            return true;
        }
        i += 1;
    }
    assert forall|j: int| 0 <= j < string_views(v@).len() implies string_views(v@)[j] != s@ by {
        assert(string_views(v@)[j] == v@[j]@);
    }
    false
}


/// Appends to `r` every string of `extra` that it does not hold yet.
pub fn append_missing_strings(r: &mut Vec<String>, extra: Vec<String>)
    requires
        string_views(old(r)@).no_duplicates(),
    ensures
        string_views(final(r)@).no_duplicates(),
        string_views(final(r)@).to_set() == string_views(old(r)@).to_set().union(
            string_views(extra@).to_set(),
        ),
        string_views(final(r)@).take(old(r)@.len() as int) == string_views(old(r)@),
{
    let ghost start = string_views(r@);
    let mut i: usize = 0;
    while i < extra.len()
        invariant
            i <= extra@.len(),
            start.len() <= r@.len(),
            string_views(r@).no_duplicates(),
            string_views(r@).take(start.len() as int) == start,
            string_views(r@).to_set() == start.to_set().union(
                string_views(extra@).take(i as int).to_set(),
            ),
        decreases extra@.len() - i,
    {
        let x = extra[i].clone();
        let ghost old_r = string_views(r@);
        let present = contains_string(r, x.as_str());
        if !present {
            r.push(x);
            assert(string_views(r@) =~= old_r.push(extra@[i as int]@));
            assert(string_views(r@).take(start.len() as int) =~= old_r.take(start.len() as int));
        }
        assert(string_views(extra@).take(i + 1) =~= string_views(extra@).take(i as int).push(
            extra@[i as int]@,
        ));
        proof {
            string_views(extra@).take(i as int).lemma_push_to_set_commute(extra@[i as int]@);
            old_r.lemma_push_to_set_commute(extra@[i as int]@);
        }
        assert(string_views(r@).to_set() =~= start.to_set().union(
            string_views(extra@).take(i + 1).to_set(),
        )) by {
            assert forall|k: Seq<char>| string_views(r@).to_set().contains(k) <==> old_r.to_set().insert(extra@[i as int]@).contains(k) by {
                if !present {
                    if string_views(r@).contains(k) {
                        let m = choose|m: int| 0 <= m < string_views(r@).len() && string_views(r@)[m] == k;
                        if m < old_r.len() {
                            assert(old_r[m] == k);
                        }
                    }
                    if old_r.contains(k) {
                        let m = choose|m: int| 0 <= m < old_r.len() && old_r[m] == k;
                        assert(string_views(r@)[m] == k);
                    }
                    assert(string_views(r@)[old_r.len() as int] == extra@[i as int]@);
                }
            }
        }
        i += 1;
    }
    assert(string_views(extra@).take(extra@.len() as int) =~= string_views(extra@));
}

// ==========================================
// The configuration pyramid
// ==========================================

/// Environment variables that take part in the configuration: those whose
/// name begins with `WINER_`, and `WINEPREFIX`.
pub open spec fn is_forwarded_environment_key(key: Seq<char>) -> bool {
    starts_with(key, "WINER_"@) || key == "WINEPREFIX"@
}

/// The environment layer built from a list of environment variables.
pub open spec fn forwarded_environment(vars: Seq<(Seq<char>, Seq<char>)>) -> Map<Seq<char>, Seq<char>>
    decreases vars.len(),
{
    if vars.len() == 0 {
        Map::empty()
    } else {
        let prev = forwarded_environment(vars.drop_last());
        if is_forwarded_environment_key(vars.last().0) {
            prev.insert(vars.last().0, vars.last().1)
        } else {
            prev
        }
    }
}

/// Value of `key` in the first map of the list that defines it.
pub open spec fn first_defined(maps: Seq<Map<Seq<char>, Seq<char>>>, key: Seq<char>) -> Option<Seq<char>>
    decreases maps.len(),
{
    if maps.len() == 0 {
        None
    } else if maps[0].dom().contains(key) {
        Some(maps[0][key])
    } else {
        first_defined(maps.drop_first(), key)
    }
}

/// The configuration pyramid: four layers queried from the highest priority
/// down — environment variables, the sandbox's own meta file, the user's
/// per-sandbox profile, the global configuration — with a hard-coded
/// default below them.  Values are returned with a leading `~` expanded
/// against the home directory captured when the pyramid was built.
pub struct ConfigurationPyramid {
    environment: ConfigurationLayer,
    local: ConfigurationLayer,
    user: ConfigurationLayer,
    global: ConfigurationLayer,
    home: Option<String>,
}

impl ConfigurationPyramid {
    /// The environment layer.
    pub closed spec fn environment_layer(self) -> Map<Seq<char>, Seq<char>> {
        self.environment@
    }

    /// The sandbox-local layer (`winer_meta.toml`).
    pub closed spec fn local_layer(self) -> Map<Seq<char>, Seq<char>> {
        self.local@
    }

    /// The per-sandbox user layer (`[WINER_ID].toml`).
    pub closed spec fn user_layer(self) -> Map<Seq<char>, Seq<char>> {
        self.user@
    }

    /// The global layer (`config.toml`).
    pub closed spec fn global_layer(self) -> Map<Seq<char>, Seq<char>> {
        self.global@
    }

    /// The home directory used for tilde expansion.
    pub closed spec fn home_directory(self) -> Option<Seq<char>> {
        opt_view(self.home)
    }

    /// The layers, highest priority first.
    pub open spec fn layers(self) -> Seq<Map<Seq<char>, Seq<char>>> {
        seq![self.environment_layer(), self.local_layer(), self.user_layer(), self.global_layer()]
    }

    /// The raw value of `key`, taken from the highest layer that defines it.
    pub open spec fn lookup(self, key: Seq<char>) -> Option<Seq<char>> {
        first_defined(self.layers(), key)
    }

    /// What `resolve_configuration_value` returns.
    pub open spec fn resolved_value(self, key: Seq<char>, default: Seq<char>) -> Seq<char> {
        expand_tilde(
            match self.lookup(key) {
                Some(v) => v,
                None => default,
            },
            self.home_directory(),
        )
    }

    /// Keys defined by one of the three configuration files.
    pub open spec fn file_keys(self) -> Set<Seq<char>> {
        self.global_layer().dom().union(self.user_layer().dom()).union(self.local_layer().dom())
    }

    /// Keys defined by any layer.
    pub open spec fn all_keys(self) -> Set<Seq<char>> {
        self.file_keys().union(self.environment_layer().dom())
    }

    /// Builds the pyramid from the three file layers, the process
    /// environment (as name/value pairs) and the `HOME` value.  Only the
    /// environment variables named `WINER_*` or `WINEPREFIX` enter it.
    pub fn new(
        global: ConfigurationLayer,
        user: ConfigurationLayer,
        local: ConfigurationLayer,
        environment_variables: &Vec<(String, String)>,
        home: Option<String>,
    ) -> (r: Self)
        ensures
            r.global_layer() == global@,
            r.user_layer() == user@,
            r.local_layer() == local@,
            r.environment_layer() == forwarded_environment(pair_views(environment_variables@)),
            r.home_directory() == opt_view(home),
    {
        let mut environment = ConfigurationLayer::new();
        let ghost pv = pair_views(environment_variables@);
        let prefix = chars_of("WINER_");
        let mut i: usize = 0;
        assert(pv.take(0) =~= Seq::<(Seq<char>, Seq<char>)>::empty());
        while i < environment_variables.len()
            invariant
                i <= environment_variables@.len(),
                pv == pair_views(environment_variables@),
                prefix@ == "WINER_"@,
                environment@ == forwarded_environment(pv.take(i as int)),
            decreases environment_variables@.len() - i,
        {
            let key = &environment_variables[i].0;
            let kv = chars_of(key.as_str());
            let forwarded = chars_start_with(&kv, &prefix) || crate::text::str_equal(
                key.as_str(),
                "WINEPREFIX",
            );
            assert(pv.take(i + 1).drop_last() =~= pv.take(i as int));
            assert(pv.take(i + 1).last() == pv[i as int]);
            if forwarded {
                environment.insert(key.clone(), environment_variables[i].1.clone());
            }
            i += 1;
        }
        assert(pv.take(pv.len() as int) =~= pv);
        ConfigurationPyramid { environment, local, user, global, home }
    }

    /// The configured value of `key` (or `default` when no layer defines
    /// it), with a leading `~` expanded.
    pub fn resolve_configuration_value(&self, key: &str, default: &str) -> (r: String)
        ensures
            r@ == self.resolved_value(key@, default@),
    {
        let raw = match self.environment.get(key) {
            Some(v) => v,
            None => match self.local.get(key) {
                Some(v) => v,
                None => match self.user.get(key) {
                    Some(v) => v,
                    None => match self.global.get(key) {
                        Some(v) => v,
                        None => string_from_chars(&chars_of(default)),
                    },
                },
            },
        };
        proof {
            reveal_with_fuel(first_defined, 5);
            let l = self.layers();
            assert(l.drop_first() =~= seq![self.local_layer(), self.user_layer(), self.global_layer()]);
            assert(l.drop_first().drop_first() =~= seq![self.user_layer(), self.global_layer()]);
            assert(l.drop_first().drop_first().drop_first() =~= seq![self.global_layer()]);
            assert(l.drop_first().drop_first().drop_first().drop_first() =~= Seq::<Map<Seq<char>, Seq<char>>>::empty());
        }
        let home = match &self.home {
            Some(h) => Some(h.clone()),
            None => None,
        };
        expand_tilde_in_configuration_value(raw, home)
    }

    /// Every key defined by any layer, each once.
    pub fn get_all_configuration_keys(&self) -> (r: Vec<String>)
        ensures
            string_views(r@).no_duplicates(),
            string_views(r@).to_set() == self.all_keys(),
    {
        let mut r = self.file_configuration_keys();
        append_missing_strings(&mut r, self.environment.keys());
        r
    }

    /// Every key defined by one of the three configuration files, each once:
    /// global keys first, then user, then local ones.
    pub fn file_configuration_keys(&self) -> (r: Vec<String>)
        ensures
            string_views(r@).no_duplicates(),
            string_views(r@).to_set() == self.file_keys(),
    {
        let mut r: Vec<String> = Vec::new();
        assert(string_views(r@).to_set() =~= Set::<Seq<char>>::empty());
        append_missing_strings(&mut r, self.global.keys());
        append_missing_strings(&mut r, self.user.keys());
        append_missing_strings(&mut r, self.local.keys());
        assert(string_views(r@).to_set() =~= self.file_keys());
        r
    }
}


// ==========================================
// Targets
// ==========================================

/// What the target of a run turned out to be.
#[derive(Debug)]
pub enum TargetCategory {
    /// A tool built into Wine's multi-call binary (`winecfg`, `regedit`):
    /// a host file that resolves to the Wine engine itself.
    WineMulticallTool { string_representing_subcommand_name: String },
    /// A command that only exists inside Wine (`cmd`, `explorer`): nothing on
    /// the host carries its name.
    VirtualWineCommand { string_representing_command_name: String },
    /// A Windows program on the host.
    PhysicalWindowsExecutable { path_buf_representing_host_absolute_path: String },
    /// A native Linux program; never run.
    HostLinuxExecutableBlock,
}

/// The mathematical form of a [`TargetCategory`].
pub enum CategoryModel {
    WineMulticallTool(Seq<char>),
    VirtualWineCommand(Seq<char>),
    PhysicalWindowsExecutable(Seq<char>),
    HostLinuxExecutableBlock,
}

impl View for TargetCategory {
    type V = CategoryModel;

    open spec fn view(&self) -> CategoryModel {
        match self {
            TargetCategory::WineMulticallTool { string_representing_subcommand_name } =>
                CategoryModel::WineMulticallTool(string_representing_subcommand_name@),
            TargetCategory::VirtualWineCommand { string_representing_command_name } =>
                CategoryModel::VirtualWineCommand(string_representing_command_name@),
            TargetCategory::PhysicalWindowsExecutable { path_buf_representing_host_absolute_path } =>
                CategoryModel::PhysicalWindowsExecutable(path_buf_representing_host_absolute_path@),
            TargetCategory::HostLinuxExecutableBlock => CategoryModel::HostLinuxExecutableBlock,
        }
    }
}

/// The resolved target of a run and everything derived from it.
pub struct TargetSpecification {
    /// What the user named as the target.
    pub string_representing_raw_user_input_target: String,
    /// The host file of the target, when it is a Windows program.
    pub option_representing_absolute_path_to_primary_target_executable: Option<String>,
    /// Commands that run before the target inside Wine (such as
    /// `explorer /desktop=...` or a patcher).
    pub vector_of_strings_representing_launcher_prefix_commands: Vec<String>,
    /// Directories of further host files named on the command line, to be
    /// mounted as well.
    pub vector_of_path_bufs_representing_secondary_penetration_mount_sources: Vec<String>,
    /// What the target is.
    pub target_category_enum_representing_execution_type: TargetCategory,
    /// Arguments for the target.
    pub vector_of_strings_representing_remaining_cli_arguments: Vec<String>,
}

/// The mathematical form of a [`TargetSpecification`].
pub struct TargetModel {
    pub raw_target: Seq<char>,
    pub primary_path: Option<Seq<char>>,
    pub prefixes: Seq<Seq<char>>,
    pub secondary_sources: Seq<Seq<char>>,
    pub category: CategoryModel,
    pub remaining: Seq<Seq<char>>,
}

impl View for TargetSpecification {
    type V = TargetModel;

    open spec fn view(&self) -> TargetModel {
        TargetModel {
            raw_target: self.string_representing_raw_user_input_target@,
            primary_path: opt_view(self.option_representing_absolute_path_to_primary_target_executable),
            prefixes: string_views(self.vector_of_strings_representing_launcher_prefix_commands@),
            secondary_sources: string_views(
                self.vector_of_path_bufs_representing_secondary_penetration_mount_sources@,
            ),
            category: self.target_category_enum_representing_execution_type@,
            remaining: string_views(self.vector_of_strings_representing_remaining_cli_arguments@),
        }
    }
}

// ==========================================
// Mounts
// ==========================================

/// One bind mount from the host into the sandbox.
pub struct MountSpecification {
    pub path_buf_representing_host_source: String,
    pub path_buf_representing_container_destination: String,
    pub boolean_flag_indicating_readonly: bool,
    /// The mount is skipped, without error, when the source is missing.
    pub boolean_flag_indicating_try_only: bool,
    /// A missing source directory may be created on the host.
    pub boolean_flag_indicating_host_directory_creation_allowed: bool,
}

/// The mathematical form of a [`MountSpecification`].
pub struct MountModel {
    pub source: Seq<char>,
    pub destination: Seq<char>,
    pub readonly: bool,
    pub try_only: bool,
    pub creation_allowed: bool,
}

impl View for MountSpecification {
    type V = MountModel;

    open spec fn view(&self) -> MountModel {
        MountModel {
            source: self.path_buf_representing_host_source@,
            destination: self.path_buf_representing_container_destination@,
            readonly: self.boolean_flag_indicating_readonly,
            try_only: self.boolean_flag_indicating_try_only,
            creation_allowed: self.boolean_flag_indicating_host_directory_creation_allowed,
        }
    }
}

/// The views of a list of mounts.
pub open spec fn mount_views(v: Seq<MountSpecification>) -> Seq<MountModel> {
    v.map_values(|m: MountSpecification| m@)
}

/// A mount of `source` at the same place inside the sandbox.
pub open spec fn same_place_mount(source: Seq<char>, readonly: bool, try_only: bool, creation_allowed: bool) -> MountModel {
    MountModel { source, destination: source, readonly, try_only, creation_allowed }
}

/// Builds a mount of `source` at the same place inside the sandbox.
pub fn same_place_mount_of(source: String, readonly: bool, try_only: bool, creation_allowed: bool) -> (r: MountSpecification)
    ensures
        r@ == same_place_mount(source@, readonly, try_only, creation_allowed),
{
    MountSpecification {
        path_buf_representing_host_source: source.clone(),
        path_buf_representing_container_destination: source,
        boolean_flag_indicating_readonly: readonly,
        boolean_flag_indicating_try_only: try_only,
        boolean_flag_indicating_host_directory_creation_allowed: creation_allowed,
    }
}

// ==========================================
// The sandbox context
// ==========================================

/// Everything the pipeline stages share about one run.
pub struct SandboxContext {
    pub string_representing_derived_sandbox_identifier: String,
    pub path_buf_representing_host_home_directory: String,
    pub string_representing_host_username: String,
    pub path_buf_representing_sandbox_home_directory: String,
    pub boolean_flag_indicating_network_enabled: bool,
    pub boolean_flag_indicating_pid_sharing_enabled: bool,
    pub boolean_flag_indicating_ipc_sharing_enabled: bool,
    pub boolean_flag_indicating_full_device_passthrough_enabled: bool,
    pub boolean_flag_indicating_gamemode_enabled: bool,
    pub configuration_pyramid_representing_all_layers: ConfigurationPyramid,
}

impl SandboxContext {
    /// The context of a run: the sandbox home lies at
    /// `<data root>/<identifier>/sandbox_home`, and the switches follow
    /// `WINER_NET`, `WINER_SHARE_PID`, `WINER_IPC` (on unless `0`),
    /// `WINER_DEV` (on when `1`, the default) and `WINER_GAMEMODE` (on when
    /// `1`; off by default).
    pub fn new(
        identifier: String,
        host_home: String,
        username: String,
        sandbox_data_root: &str,
        pyramid: ConfigurationPyramid,
    ) -> (r: Self)
        ensures
            r.string_representing_derived_sandbox_identifier@ == identifier@,
            r.path_buf_representing_host_home_directory@ == host_home@,
            r.string_representing_host_username@ == username@,
            r.path_buf_representing_sandbox_home_directory@ == crate::host_path::path_join(
                crate::host_path::path_join(sandbox_data_root@, identifier@),
                "sandbox_home"@,
            ),
            r.boolean_flag_indicating_network_enabled == (pyramid.resolved_value("WINER_NET"@, "1"@) != "0"@),
            r.boolean_flag_indicating_pid_sharing_enabled == (pyramid.resolved_value("WINER_SHARE_PID"@, "1"@) != "0"@),
            r.boolean_flag_indicating_ipc_sharing_enabled == (pyramid.resolved_value("WINER_IPC"@, "1"@) != "0"@),
            r.boolean_flag_indicating_full_device_passthrough_enabled == (pyramid.resolved_value("WINER_DEV"@, "1"@) == "1"@),
            r.boolean_flag_indicating_gamemode_enabled == (pyramid.resolved_value("WINER_GAMEMODE"@, "0"@) == "1"@),
            r.configuration_pyramid_representing_all_layers == pyramid,
    {
        let root = crate::host_path::join_path(sandbox_data_root, identifier.as_str());
        let sandbox_home = crate::host_path::join_path(root.as_str(), "sandbox_home");
        let net = pyramid.resolve_configuration_value("WINER_NET", "1");
        let pid = pyramid.resolve_configuration_value("WINER_SHARE_PID", "1");
        let ipc = pyramid.resolve_configuration_value("WINER_IPC", "1");
        let dev = pyramid.resolve_configuration_value("WINER_DEV", "1");
        let game = pyramid.resolve_configuration_value("WINER_GAMEMODE", "0");
        SandboxContext {
            string_representing_derived_sandbox_identifier: identifier,
            path_buf_representing_host_home_directory: host_home,
            string_representing_host_username: username,
            path_buf_representing_sandbox_home_directory: sandbox_home,
            boolean_flag_indicating_network_enabled: !crate::text::str_equal(net.as_str(), "0"),
            boolean_flag_indicating_pid_sharing_enabled: !crate::text::str_equal(pid.as_str(), "0"),
            boolean_flag_indicating_ipc_sharing_enabled: !crate::text::str_equal(ipc.as_str(), "0"),
            boolean_flag_indicating_full_device_passthrough_enabled: crate::text::str_equal(dev.as_str(), "1"),
            boolean_flag_indicating_gamemode_enabled: crate::text::str_equal(game.as_str(), "1"),
            configuration_pyramid_representing_all_layers: pyramid,
        }
    }
}


/// Copies `v[from..]`.
pub fn copy_strings_from(v: &[String], from: usize) -> (r: Vec<String>)
    requires
        from <= v@.len(),
    ensures
        string_views(r@) == string_views(v@).skip(from as int),
{
    let mut r: Vec<String> = Vec::new();
    let mut i: usize = from;
    while i < v.len()
        invariant
            from <= i <= v@.len(),
            string_views(r@) == string_views(v@).subrange(from as int, i as int),
        decreases v@.len() - i,
    {
        let ghost old_r = r@;
        r.push(v[i].clone());
        assert(string_views(r@) =~= string_views(old_r).push(v@[i as int]@));
        assert(string_views(v@).subrange(from as int, i + 1) =~= string_views(v@).subrange(
            from as int,
            i as int,
        ).push(v@[i as int]@));
        i += 1;
    }
    assert(string_views(v@).subrange(from as int, v@.len() as int) =~= string_views(v@).skip(
        from as int,
    ));
    r
}

/// Appends copies of the strings of `extra` to `r`.
pub fn extend_strings(r: &mut Vec<String>, extra: &[String])
    ensures
        string_views(final(r)@) == string_views(old(r)@) + string_views(extra@),
{
    let ghost start = string_views(r@);
    let mut i: usize = 0;
    while i < extra.len()
        invariant
            i <= extra@.len(),
            string_views(r@) == start + string_views(extra@).take(i as int),
        decreases extra@.len() - i,
    {
        let ghost old_r = r@;
        r.push(extra[i].clone());
        assert(string_views(r@) =~= string_views(old_r).push(extra@[i as int]@));
        assert(string_views(extra@).take(i + 1) =~= string_views(extra@).take(i as int).push(
            extra@[i as int]@,
        ));
        i += 1;
    }
    assert(string_views(extra@).take(extra@.len() as int) =~= string_views(extra@));
}

/// A string with the given characters' literal text.
pub fn owned(s: &str) -> (r: String)
    ensures
        r@ == s@,
{
    string_from_chars(&chars_of(s))
}

// ==========================================
// Laws of the configuration pyramid
// ==========================================

/// The pyramid's priority: the value of a key comes from the environment if
/// it sets the key, else from the sandbox's meta file, else from the user
/// profile, else from the global configuration, else it is the default —
/// the same cascade the stand-alone lookup uses — with a leading `~`
/// expanded.
pub proof fn lemma_configuration_priority(pyramid: ConfigurationPyramid, key: Seq<char>, default: Seq<char>)
    ensures
        pyramid.resolved_value(key, default) == expand_tilde(
            cascade_value(
                key,
                pyramid.local_layer(),
                pyramid.user_layer(),
                pyramid.global_layer(),
                default,
                if pyramid.environment_layer().dom().contains(key) {
                    Some(pyramid.environment_layer()[key])
                } else {
                    None
                },
            ),
            pyramid.home_directory(),
        ),
{
    reveal_with_fuel(first_defined, 5);
    let l = pyramid.layers();
    assert(l.drop_first() =~= seq![pyramid.local_layer(), pyramid.user_layer(), pyramid.global_layer()]);
    assert(l.drop_first().drop_first() =~= seq![pyramid.user_layer(), pyramid.global_layer()]);
    assert(l.drop_first().drop_first().drop_first() =~= seq![pyramid.global_layer()]);
    assert(l.drop_first().drop_first().drop_first().drop_first() =~= Seq::<Map<Seq<char>, Seq<char>>>::empty());
}

/// Only variables named `WINER_*` and `WINEPREFIX` enter the environment
/// layer, and each keeps the value it was last given.
pub proof fn lemma_environment_layer_keys(vars: Seq<(Seq<char>, Seq<char>)>)
    ensures
        forall|k: Seq<char>| #[trigger] forwarded_environment(vars).dom().contains(k) ==> is_forwarded_environment_key(k),
        forall|i: int|
            0 <= i < vars.len() && is_forwarded_environment_key(vars[i].0) && (forall|j: int| i < j < vars.len() ==> #[trigger] vars[j].0 != vars[i].0)
                ==> forwarded_environment(vars).dom().contains(vars[i].0) && forwarded_environment(vars)[vars[i].0] == vars[i].1,
    decreases vars.len(),
{
    if vars.len() == 0 {
        assert(forwarded_environment(vars).dom() =~= Set::<Seq<char>>::empty());
    } else {
        let prev = vars.drop_last();
        lemma_environment_layer_keys(prev);
        assert forall|k: Seq<char>| #[trigger] forwarded_environment(vars).dom().contains(k) implies is_forwarded_environment_key(k) by {
            if k != vars.last().0 {
                assert(forwarded_environment(prev).dom().contains(k));
            }
        }
        assert forall|i: int|
            0 <= i < vars.len() && is_forwarded_environment_key(vars[i].0) && (forall|j: int| i < j < vars.len() ==> #[trigger] vars[j].0 != vars[i].0)
            implies forwarded_environment(vars).dom().contains(vars[i].0) && forwarded_environment(vars)[vars[i].0] == vars[i].1 by {
            if i < vars.len() - 1 {
                assert(prev[i] == vars[i]);
                assert forall|j: int| i < j < prev.len() implies #[trigger] prev[j].0 != prev[i].0 by {
                    assert(prev[j] == vars[j]);
                }
                assert(vars[vars.len() - 1].0 != vars[i].0);
            }
        }
    }
}

} // verus!
