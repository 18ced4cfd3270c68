//! The flat TOML-like configuration format and the cascade of configuration
//! sources.
use vstd::prelude::*;
use crate::core_data_structures::{
    ConfigurationLayer, ConfigurationPyramid, forwarded_environment, pair_views,
};
use crate::file_system_utilities::{expand_tilde, expand_tilde_in_configuration_value};
use crate::host_path::{join_path, opt_view, path_join};
use crate::text::{
    chars_of, find_char, first_index_of, slice_chars, split_chars, split_on, string_from_chars,
    trim, trim_chars, uppercase_of, to_uppercase, seqs_of, ascii_uppercase_char, is_ascii_text,
};

verus! {

// ==========================================
// The flat configuration format
// ==========================================

/// A value with an inline comment removed: the text before the first `#`,
/// or failing that before the first `;`, trimmed.
pub open spec fn strip_inline_comment(v: Seq<char>) -> Seq<char> {
    match first_index_of(v, '#') {
        Some(j) => trim(v.take(j)),
        None => match first_index_of(v, ';') {
            Some(j) => trim(v.take(j)),
            None => v,
        },
    }
}

/// A value with one pair of surrounding double or single quotes removed.
pub open spec fn unquote(v: Seq<char>) -> Seq<char> {
    if v.len() >= 2 && ((v[0] == '"' && v.last() == '"') || (v[0] == '\'' && v.last() == '\'')) {
        v.subrange(1, v.len() - 1)
    } else {
        v
    }
}

/// The entry a configuration line defines: blank lines, lines that begin
/// with `#` or `;` and lines without `=` define none.  Otherwise the key is
/// the trimmed text before the first `=` in upper case, and the value the
/// trimmed text after it with an inline comment and one pair of quotes
/// removed.
pub open spec fn parse_configuration_line(line: Seq<char>) -> Option<(Seq<char>, Seq<char>)> {
    let t = trim(line);
    if t.len() == 0 || t[0] == '#' || t[0] == ';' {
        None
    } else {
        match first_index_of(t, '=') {
            None => None,
            Some(i) => Some(
                (
                    uppercase_of(trim(t.take(i))),
                    unquote(strip_inline_comment(trim(t.skip(i + 1)))),
                ),
            ),
        }
    }
}

/// The text of the key a configuration line defines, before it is made
/// upper case: the trimmed text before the first `=`.
pub open spec fn configuration_key_text(line: Seq<char>) -> Option<Seq<char>> {
    let t = trim(line);
    if t.len() == 0 || t[0] == '#' || t[0] == ';' {
        None
    } else {
        match first_index_of(t, '=') {
            None => None,
            Some(i) => Some(trim(t.take(i))),
        }
    }
}

/// For a line whose key is ASCII text, the upper case of the key is its
/// ASCII upper case (so `a = 1` and `A = 1` define the same key).
pub open spec fn ascii_key_upper_cased(line: Seq<char>) -> bool {
    match configuration_key_text(line) {
        Some(k) => is_ascii_text(k) ==> uppercase_of(k) == k.map_values(|c: char| ascii_uppercase_char(c)),
        None => true,
    }
}

/// The map defined by a sequence of lines; a later line overrides an earlier
/// one with the same key.
pub open spec fn parsed_configuration(lines: Seq<Seq<char>>) -> Map<Seq<char>, Seq<char>>
    decreases lines.len(),
{
    if lines.len() == 0 {
        Map::empty()
    } else {
        let m = parsed_configuration(lines.drop_last());
        match parse_configuration_line(lines.last()) {
            Some(kv) => m.insert(kv.0, kv.1),
            None => m,
        }
    }
}

/// The map a configuration text defines.
pub open spec fn parsed_configuration_text(content: Seq<char>) -> Map<Seq<char>, Seq<char>> {
    parsed_configuration(split_on(content, '\n'))
}

fn strip_inline_comment_exec(v: Vec<char>) -> (r: Vec<char>)
    ensures
        r@ == strip_inline_comment(v@),
{
    proof {
        crate::text::lemma_first_index_of(v@, '#');
    }
    match find_char(&v, '#') {
        Some(j) => {
            assert(v@.subrange(0, j as int) =~= v@.take(j as int));
            trim_chars(&slice_chars(&v, 0, j))
        },
        None => match find_char(&v, ';') {
            Some(j) => {
                proof {
                    crate::text::lemma_first_index_of(v@, ';');
                }
                assert(v@.subrange(0, j as int) =~= v@.take(j as int));
                trim_chars(&slice_chars(&v, 0, j))
            },
            None => v,
        },
    }
}

fn unquote_exec(v: Vec<char>) -> (r: Vec<char>)
    ensures
        r@ == unquote(v@),
{
    let n = v.len();
    if n >= 2 && ((v[0] == '"' && v[n - 1] == '"') || (v[0] == '\'' && v[n - 1] == '\'')) {
        slice_chars(&v, 1, n - 1)
    } else {
        v
    }
}

/// The entry a configuration line defines.
pub fn parse_configuration_line_exec(line: &[char]) -> (r: Option<(String, String)>)
    ensures
        match r {
            Some(kv) => parse_configuration_line(line@) == Some((kv.0@, kv.1@)),
            None => parse_configuration_line(line@) is None,
        },
        ascii_key_upper_cased(line@),
{
    let t = trim_chars(line);
    if t.len() == 0 || t[0] == '#' || t[0] == ';' {
        return None;
    }
    match find_char(&t, '=') {
        None => None,
        Some(i) => {
            proof {
                crate::text::lemma_first_index_of(t@, '=');
            }
            let key_chars = trim_chars(&slice_chars(&t, 0, i));
            let key_text = string_from_chars(&key_chars);
            let key = to_uppercase(key_text.as_str());
            let raw = trim_chars(&slice_chars(&t, i + 1, t.len()));
            assert(t@.subrange(i + 1, t@.len() as int) =~= t@.skip(i + 1));
            assert(t@.subrange(0, i as int) =~= t@.take(i as int));
            let value = unquote_exec(strip_inline_comment_exec(raw));
            Some((key, string_from_chars(&value)))
        },
    }
}

/// Parses the content of a flat configuration file: one `KEY = value` entry
/// per line, `#` and `;` comments, keys made upper case, values unquoted.
pub fn parse_simple_flat_toml_content(content: &str) -> (r: ConfigurationLayer)
    ensures
        r@ == parsed_configuration_text(content@),
        forall|j: int| 0 <= j < split_on(content@, '\n').len() ==> ascii_key_upper_cased(
            #[trigger] split_on(content@, '\n')[j],
        ),
{
    let cv = chars_of(content);
    let lines = split_chars(&cv, '\n');
    let ghost ls = seqs_of(lines@);
    let mut layer = ConfigurationLayer::new();
    let mut i: usize = 0;
    assert(ls.take(0) =~= Seq::<Seq<char>>::empty());
    while i < lines.len()
        invariant
            i <= lines@.len(),
            ls == seqs_of(lines@),
            ls == split_on(cv@, '\n'),
            layer@ == parsed_configuration(ls.take(i as int)),
            forall|j: int| 0 <= j < i ==> ascii_key_upper_cased(#[trigger] ls[j]),
        decreases lines@.len() - i,
    {
        assert(ls.take(i + 1).drop_last() =~= ls.take(i as int));
        assert(ls.take(i + 1).last() == lines@[i as int]@);
        match parse_configuration_line_exec(&lines[i]) {
            Some(kv) => {
                layer.insert(kv.0, kv.1);
            },
            None => {},
        }
        i += 1;
    }
    assert(ls.take(ls.len() as int) =~= ls);
    layer
}

// ==========================================
// The cascade of configuration sources
// ==========================================

/// The value chosen by the five-level cascade: the environment, the
/// sandbox-local layer, the user layer, the global layer, the default.
pub open spec fn cascade_value(
    key: Seq<char>,
    local: Map<Seq<char>, Seq<char>>,
    user: Map<Seq<char>, Seq<char>>,
    global: Map<Seq<char>, Seq<char>>,
    default: Seq<char>,
    environment_value: Option<Seq<char>>,
) -> Seq<char> {
    match environment_value {
        Some(v) => v,
        None => if local.dom().contains(key) {
            local[key]
        } else if user.dom().contains(key) {
            user[key]
        } else if global.dom().contains(key) {
            global[key]
        } else {
            default
        },
    }
}

/// Looks `key` up through the cascade and expands a leading `~` in the
/// result.  `environment_value` is the value of the environment variable
/// named `key`, if it is set; `home` is the value of `HOME`, if set.
pub fn resolve_configuration_value_from_hierarchical_sources(
    key: &str,
    local: &ConfigurationLayer,
    user: &ConfigurationLayer,
    global: &ConfigurationLayer,
    default: &str,
    environment_value: Option<String>,
    home: Option<String>,
) -> (r: String)
    ensures
        r@ == expand_tilde(
            cascade_value(key@, local@, user@, global@, default@, opt_view(environment_value)),
            opt_view(home),
        ),
{
    let raw = match environment_value {
        Some(v) => v,
        None => match local.get(key) {
            Some(v) => v,
            None => match user.get(key) {
                Some(v) => v,
                None => match global.get(key) {
                    Some(v) => v,
                    None => string_from_chars(&chars_of(default)),
                },
            },
        },
    };
    expand_tilde_in_configuration_value(raw, home)
}

// ==========================================
// Base directories
// ==========================================

/// Home directory, user name and configuration root of the host: the user
/// name falls back to `wineruser`, and the configuration root is
/// `$XDG_CONFIG_HOME/bwrap-winer`, or `~/.config/bwrap-winer` when
/// `XDG_CONFIG_HOME` is not set.
pub fn resolve_host_environment_base_paths(
    home: &str,
    user: Option<String>,
    xdg_config_home: Option<String>,
) -> (r: (String, String, String))
    ensures
        r.0@ == home@,
        r.1@ == (match user {
            Some(u) => u@,
            None => "wineruser"@,
        }),
        r.2@ == path_join(
            match xdg_config_home {
                Some(x) => x@,
                None => path_join(home@, ".config"@),
            },
            "bwrap-winer"@,
        ),
{
    let user_name = match user {
        Some(u) => u,
        None => string_from_chars(&chars_of("wineruser")),
    };
    let base = match xdg_config_home {
        Some(x) => x,
        None => join_path(home, ".config"),
    };
    let root = join_path(base.as_str(), "bwrap-winer");
    (string_from_chars(&chars_of(home)), user_name, root)
}

/// The default place of the sandboxes: `$XDG_DATA_HOME/bwrap-winer/sandboxes`,
/// or `~/.local/share/bwrap-winer/sandboxes`.
pub open spec fn default_sandbox_data_root(home: Seq<char>, xdg_data_home: Option<Seq<char>>) -> Seq<
    char,
> {
    path_join(
        match xdg_data_home {
            Some(x) => x,
            None => path_join(home, ".local/share"@),
        },
        "bwrap-winer/sandboxes"@,
    )
}

/// The directory that holds the sandboxes: `WINER_DATA_ROOT` from the
/// environment or from the global configuration, else the default place,
/// with a leading `~` expanded against `home`.
pub fn resolve_sandbox_data_root_directory(
    home: &str,
    global: &ConfigurationLayer,
    xdg_data_home: Option<String>,
    environment_data_root: Option<String>,
) -> (r: String)
    ensures
        r@ == expand_tilde(
            cascade_value(
                "WINER_DATA_ROOT"@,
                Map::empty(),
                Map::empty(),
                global@,
                default_sandbox_data_root(home@, opt_view(xdg_data_home)),
                opt_view(environment_data_root),
            ),
            Some(home@),
        ),
{
    let base = match xdg_data_home {
        Some(x) => x,
        None => join_path(home, ".local/share"),
    };
    let default = join_path(base.as_str(), "bwrap-winer/sandboxes");
    let empty_local = ConfigurationLayer::new();
    let empty_user = ConfigurationLayer::new();
    resolve_configuration_value_from_hierarchical_sources(
        "WINER_DATA_ROOT",
        &empty_local,
        &empty_user,
        global,
        default.as_str(),
        environment_data_root,
        Some(string_from_chars(&chars_of(home))),
    )
}

/// The three configuration files of a sandbox: the global
/// `config.toml`, the user's `IDs/[WINER_ID].toml` and the sandbox's
/// `winer_meta.toml`.
pub fn configuration_file_paths(
    global_config_root: &str,
    sandbox_data_root: &str,
    sandbox_identifier: &str,
) -> (r: (String, String, String))
    ensures
        r.0@ == path_join(global_config_root@, "config.toml"@),
        r.1@ == path_join(path_join(global_config_root@, "IDs"@), sandbox_identifier@ + ".toml"@),
        r.2@ == path_join(path_join(sandbox_data_root@, sandbox_identifier@), "winer_meta.toml"@),
{
    let global = join_path(global_config_root, "config.toml");
    let idv = chars_of(sandbox_identifier);
    let ext = chars_of(".toml");
    let file_name = string_from_chars(&crate::text::concat_chars(&idv, &ext));
    let profiles = join_path(global_config_root, "IDs");
    let user = join_path(profiles.as_str(), file_name.as_str());
    let sandbox_root = join_path(sandbox_data_root, sandbox_identifier);
    let local = join_path(sandbox_root.as_str(), "winer_meta.toml");
    (global, user, local)
}

/// Assembles the configuration pyramid from the contents of the three
/// configuration files (empty for a file that is missing or unreadable),
/// the process environment and `HOME`.
pub fn load_configuration_hierarchy(
    global_file_content: &str,
    user_file_content: &str,
    local_file_content: &str,
    environment_variables: &Vec<(String, String)>,
    home: Option<String>,
) -> (r: ConfigurationPyramid)
    ensures
        r.global_layer() == parsed_configuration_text(global_file_content@),
        r.user_layer() == parsed_configuration_text(user_file_content@),
        r.local_layer() == parsed_configuration_text(local_file_content@),
        r.environment_layer() == forwarded_environment(pair_views(environment_variables@)),
        r.home_directory() == opt_view(home),
{
    let global = parse_simple_flat_toml_content(global_file_content);
    let user = parse_simple_flat_toml_content(user_file_content);
    let local = parse_simple_flat_toml_content(local_file_content);
    ConfigurationPyramid::new(global, user, local, environment_variables, home)
}

// ==========================================
// Laws of the configuration format
// ==========================================

/// A later line overrides an earlier one: the value of a key is the one its
/// last line gives, and lines that define nothing change nothing.
pub proof fn lemma_last_line_wins(lines: Seq<Seq<char>>, line: Seq<char>)
    ensures
        parse_configuration_line(line) matches Some(kv) ==> parsed_configuration(lines.push(line)).dom().contains(kv.0)
            && parsed_configuration(lines.push(line))[kv.0] == kv.1,
        parse_configuration_line(line) is None ==> parsed_configuration(lines.push(line)) == parsed_configuration(lines),
{
    assert(lines.push(line).drop_last() =~= lines);
}

} // verus!
