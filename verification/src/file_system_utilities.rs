//! Hashing, slugs, tilde expansion and path derivations.
use vstd::prelude::*;
use crate::host_path::{
    file_name_of, is_absolute_path, join_path, opt_view, parent_path, path_equal, path_file_name,
    path_has_prefix, path_is_absolute, path_join, path_parent, path_starts_with, path_strip_prefix,
    paths_equal, strip_path_prefix,
};
use crate::core_data_structures::string_views;
use crate::text::{
    chars_of, char_is_alphanumeric, ends_with, is_alphanumeric_char, lowercase_of, push_char,
    starts_with, string_from_chars,
};
use vstd::utf8::encode_utf8;

verus! {

/// `raw` with a leading `~` replaced by the home directory: `~` alone becomes
/// `home`, and `~/rest` becomes `home` followed by `/rest`.  Without a home
/// directory the value is unchanged.
pub open spec fn expand_tilde(raw: Seq<char>, home: Option<Seq<char>>) -> Seq<char> {
    if raw == seq!['~'] {
        match home {
            Some(h) => h,
            None => raw,
        }
    } else if starts_with(raw, seq!['~', '/']) {
        match home {
            Some(h) => h + raw.skip(1),
            None => raw,
        }
    } else {
        raw
    }
}

/// Expands a leading `~` in a configuration value.  `home` is the value of
/// the `HOME` variable, if it is set.
pub fn expand_tilde_in_configuration_value(raw: String, home: Option<String>) -> (r: String)
    ensures
        r@ == expand_tilde(raw@, opt_view(home)),
{
    let v = crate::text::chars_of(raw.as_str());
    let tilde = vec!['~'];
    let tilde_slash = vec!['~', '/'];
    assert(tilde@ =~= seq!['~']);
    assert(tilde_slash@ =~= seq!['~', '/']);
    if crate::text::chars_equal(&v, &tilde) {
        match home {
            Some(h) => h,
            None => raw,
        }
    } else if crate::text::chars_start_with(&v, &tilde_slash) {
        match home {
            Some(h) => {
                let hv = crate::text::chars_of(h.as_str());
                let rest = crate::text::slice_chars(&v, 1, v.len());
                let joined = crate::text::concat_chars(&hv, &rest);
                assert(rest@ =~= v@.skip(1));
                crate::text::string_from_chars(&joined)
            },
            None => raw,
        }
    } else {
        raw
    }
}


// ==========================================
// FNV-1a fingerprint
// ==========================================

/// The 64-bit FNV offset basis.
pub open spec fn fnv_offset_basis() -> u64 {
    0xcbf29ce484222325
}

/// The 64-bit FNV prime.
pub open spec fn fnv_prime() -> u64 {
    0x100000001b3
}

/// One FNV-1a step: xor in the byte, then multiply by the prime modulo 2^64.
pub open spec fn fnv1a_step(h: u64, b: u8) -> u64 {
    (((h ^ (b as u64)) as nat * fnv_prime() as nat) % 0x1_0000_0000_0000_0000nat) as u64
}

/// The 64-bit FNV-1a hash of a byte sequence.
pub open spec fn fnv1a_64(bytes: Seq<u8>) -> u64
    decreases bytes.len(),
{
    if bytes.len() == 0 {
        fnv_offset_basis()
    } else {
        fnv1a_step(fnv1a_64(bytes.drop_last()), bytes.last())
    }
}

/// The lowercase hexadecimal digit for `n < 16`.
pub open spec fn hex_digit(n: int) -> char {
    seq!['0', '1', '2', '3', '4', '5', '6', '7', '8', '9', 'a', 'b', 'c', 'd', 'e', 'f'][n]
}

/// Hexadecimal digit of `h` at the place whose weight is `place`.
pub open spec fn hex_digit_at(h: u64, place: u64) -> char {
    hex_digit(((h / place) % 16) as int)
}

/// The first seven digits of the 16-digit zero-padded lowercase
/// hexadecimal form of `h`.
pub open spec fn short_hex(h: u64) -> Seq<char> {
    seq![
        hex_digit_at(h, 0x1000_0000_0000_0000),
        hex_digit_at(h, 0x100_0000_0000_0000),
        hex_digit_at(h, 0x10_0000_0000_0000),
        hex_digit_at(h, 0x1_0000_0000_0000),
        hex_digit_at(h, 0x1000_0000_0000),
        hex_digit_at(h, 0x100_0000_0000),
        hex_digit_at(h, 0x10_0000_0000),
    ]
}

/// The short fingerprint of a string: the first seven hexadecimal digits of
/// the FNV-1a hash of its UTF-8 bytes.
pub open spec fn short_fingerprint(s: Seq<char>) -> Seq<char> {
    short_hex(fnv1a_64(encode_utf8(s)))
}

fn hex_digit_exec(n: u64) -> (c: char)
    requires
        n < 16,
    ensures
        c == hex_digit(n as int),
{
    let table: [char; 16] = ['0', '1', '2', '3', '4', '5', '6', '7', '8', '9', 'a', 'b', 'c', 'd', 'e', 'f'];
    assert(table@ =~= seq!['0', '1', '2', '3', '4', '5', '6', '7', '8', '9', 'a', 'b', 'c', 'd', 'e', 'f']);
    table[n as usize]
}

fn push_hex_digit(r: &mut String, h: u64, place: u64)
    requires
        place > 0,
    ensures
        final(r)@ == old(r)@.push(hex_digit_at(h, place)),
{
    let c = hex_digit_exec((h / place) % 16);
    push_char(r, c);
}

/// Computes the 64-bit FNV-1a hash of `s`'s UTF-8 bytes and returns the
/// first seven digits of its 16-digit lowercase hexadecimal form.
pub fn calculate_fnv1a_64_bit_hash_of_string(s: &str) -> (r: String)
    ensures
        r@ == short_fingerprint(s@),
{
    let bytes = s.as_bytes();
    let mut h: u64 = 0xcbf29ce484222325;
    let mut i: usize = 0;
    assert(bytes@.take(0) =~= Seq::<u8>::empty());
    while i < bytes.len()
        invariant
            i <= bytes@.len(),
            h == fnv1a_64(bytes@.take(i as int)),
        decreases bytes@.len() - i,
    {
        assert(bytes@.take(i + 1).drop_last() =~= bytes@.take(i as int));
        h = (h ^ (bytes[i] as u64)).wrapping_mul(0x100000001b3);
        i += 1;
    }
    assert(bytes@.take(bytes@.len() as int) =~= bytes@);
    let mut r = String::new();
    push_hex_digit(&mut r, h, 0x1000_0000_0000_0000);
    push_hex_digit(&mut r, h, 0x100_0000_0000_0000);
    push_hex_digit(&mut r, h, 0x10_0000_0000_0000);
    push_hex_digit(&mut r, h, 0x1_0000_0000_0000);
    push_hex_digit(&mut r, h, 0x1000_0000_0000);
    push_hex_digit(&mut r, h, 0x100_0000_0000);
    push_hex_digit(&mut r, h, 0x10_0000_0000);
    assert(r@ =~= short_hex(h));
    r
}

// ==========================================
// Slugs
// ==========================================

/// Name of the last path component, `sandbox` when there is none, without a
/// final `.exe` (matched case-insensitively).
pub open spec fn slug_base_name(path: Seq<char>) -> Seq<char> {
    let name = match path_file_name(path) {
        Some(n) => n,
        None => "sandbox"@,
    };
    if ends_with(lowercase_of(name), ".exe"@) && name.len() >= 4 {
        name.take(name.len() - 4)
    } else {
        name
    }
}

/// Every character that is not alphanumeric replaced by `-`.
pub open spec fn dash_non_alphanumeric(s: Seq<char>) -> Seq<char> {
    s.map_values(|c: char| if is_alphanumeric_char(c) { c } else { '-' })
}

/// Runs of `-` shortened to a single `-`.
pub open spec fn collapse_dashes(s: Seq<char>) -> Seq<char>
    decreases s.len(),
{
    if s.len() == 0 {
        s
    } else {
        let p = collapse_dashes(s.drop_last());
        if s.last() == '-' && p.len() > 0 && p.last() == '-' {
            p
        } else {
            p.push(s.last())
        }
    }
}

/// Number of `c` characters at the start of `s`.
pub open spec fn leading_count(s: Seq<char>, c: char) -> nat
    decreases s.len(),
{
    if s.len() > 0 && s[0] == c {
        1 + leading_count(s.drop_first(), c)
    } else {
        0
    }
}

/// Number of `c` characters at the end of `s`.
pub open spec fn trailing_count(s: Seq<char>, c: char) -> nat
    decreases s.len(),
{
    if s.len() > 0 && s.last() == c {
        1 + trailing_count(s.drop_last(), c)
    } else {
        0
    }
}

/// `s` with every leading and trailing `c` removed (std's `trim_matches`).
pub open spec fn trim_char(s: Seq<char>, c: char) -> Seq<char> {
    let t = s.skip(leading_count(s, c) as int);
    t.take(t.len() - trailing_count(t, c))
}

/// The human-readable slug of a path.
pub open spec fn slug_of(path: Seq<char>) -> Seq<char> {
    trim_char(collapse_dashes(dash_non_alphanumeric(slug_base_name(path))), '-')
}

fn trim_char_exec(v: &[char], c: char) -> (r: Vec<char>)
    ensures
        r@ == trim_char(v@, c),
{
    let mut i: usize = 0;
    assert(v@.skip(0) =~= v@);
    while i < v.len() && v[i] == c
        invariant
            i <= v@.len(),
            leading_count(v@, c) == i + leading_count(v@.skip(i as int), c),
        decreases v@.len() - i,
    {
        assert(v@.skip(i as int).drop_first() =~= v@.skip(i + 1));
        i += 1;
    }
    if i < v.len() {
        assert(v@.skip(i as int)[0] == v@[i as int]);
    }
    let rest = crate::text::slice_chars(v, i, v.len());
    assert(rest@ =~= v@.skip(i as int));
    let ghost s = rest@;
    let end = rest.len();
    let mut k: usize = 0;
    assert(s.take(end as int) =~= s);
    while k < end && rest[end - 1 - k] == c
        invariant
            k <= end == rest@.len(),
            s == rest@,
            trailing_count(s, c) == k + trailing_count(s.take(end - k), c),
        decreases end - k,
    {
        assert(s.take(end - k).last() == rest@[end - 1 - k]);
        assert(s.take(end - k).drop_last() =~= s.take(end - k - 1));
        k += 1;
    }
    if k < end {
        assert(s.take(end - k).last() == rest@[end - 1 - k]);
    }
    let out = crate::text::slice_chars(&rest, 0, end - k);
    assert(out@ =~= s.take(s.len() - trailing_count(s, c)));
    out
}

/// Derives a readable slug from a path: the last component (or `sandbox`),
/// without a final `.exe`, with every non-alphanumeric character turned into
/// `-`, runs of `-` collapsed and `-` trimmed from both ends.
pub fn generate_slug_from_absolute_filesystem_path(path: &str) -> (r: String)
    ensures
        r@ == slug_of(path@),
        forall|i: int| 0 <= i < r@.len() ==> r@[i] != '/',
{
    let name = match file_name_of(path) {
        Some(n) => n,
        None => string_from_chars(&chars_of("sandbox")),
    };
    let nv = chars_of(name.as_str());
    let lower = crate::text::lowercase_chars(&nv);
    let suffix = chars_of(".exe");
    let base = if crate::text::chars_end_with(&lower, &suffix) && nv.len() >= 4 {
        crate::text::slice_chars(&nv, 0, nv.len() - 4)
    } else {
        nv
    };
    assert(base@ == slug_base_name(path@));
    let ghost dashed = dash_non_alphanumeric(base@);
    let mut collapsed: Vec<char> = Vec::new();
    let mut i: usize = 0;
    assert(dashed.take(0) =~= Seq::<char>::empty());
    while i < base.len()
        invariant
            i <= base@.len(),
            dashed == dash_non_alphanumeric(base@),
            collapsed@ == collapse_dashes(dashed.take(i as int)),
            forall|k: int| 0 <= k < collapsed@.len() ==> collapsed@[k] != '/',
        decreases base@.len() - i,
    {
        let ch = base[i];
        let mapped = if char_is_alphanumeric(ch) {
            ch
        } else {
            '-'
        };
        assert(mapped == dashed[i as int]);
        assert(dashed.take(i + 1).drop_last() =~= dashed.take(i as int));
        let n = collapsed.len();
        if !(mapped == '-' && n > 0 && collapsed[n - 1] == '-') {
            collapsed.push(mapped);
        }
        i += 1;
    }
    assert(dashed.take(base@.len() as int) =~= dashed);
    let trimmed = trim_char_exec(&collapsed, '-');
    proof {
        let c = collapsed@;
        lemma_leading_count_stops(c, '-');
        let lc = leading_count(c, '-') as int;
        let u = c.skip(lc);
        lemma_trailing_count_stops(u, '-');
        assert forall|k: int| 0 <= k < trimmed@.len() implies trimmed@[k] != '/' by {
            assert(trimmed@[k] == c[lc + k]);
        }
    }
    string_from_chars(&trimmed)
}

/// The token that names a sandbox after a path: its slug, `-`, and its
/// short fingerprint.
pub open spec fn identity_token(path: Seq<char>) -> Seq<char> {
    slug_of(path) + "-"@ + short_fingerprint(path)
}

/// Builds `slug-fingerprint` for a path.
pub fn identity_token_of_path(path: &str) -> (r: String)
    ensures
        r@ == identity_token(path@),
        forall|i: int| 0 <= i < r@.len() ==> r@[i] != '/',
{
    let slug = generate_slug_from_absolute_filesystem_path(path);
    let hash = calculate_fnv1a_64_bit_hash_of_string(path);
    let sv = chars_of(slug.as_str());
    let dash = chars_of("-");
    let hv = chars_of(hash.as_str());
    let a = crate::text::concat_chars(&sv, &dash);
    let b = crate::text::concat_chars(&a, &hv);
    proof {
        reveal_strlit("-");
        lemma_fingerprint_shape(path@);
        assert forall|i: int| 0 <= i < b@.len() implies b@[i] != '/' by {
            if i > sv@.len() {
                assert(b@[i] == hv@[i - sv@.len() - 1]);
                assert(is_lower_hex_digit(short_fingerprint(path@)[i - sv@.len() - 1]));
            }
        }
    }
    string_from_chars(&b)
}


// ==========================================
// Absolute paths
// ==========================================

/// A path with a leading `~` component resolved against `home`: `~` alone
/// becomes `home`, `~/rest` becomes `home` joined with `rest`.
pub open spec fn tilde_resolved_path(path: Seq<char>, home: Option<Seq<char>>) -> Seq<char> {
    if path_starts_with(path, "~"@) {
        match home {
            Some(h) => if path_equal(path, "~"@) {
                h
            } else {
                match path_strip_prefix(path, "~/"@) {
                    Some(rel) => path_join(h, rel),
                    None => path,
                }
            },
            None => path,
        }
    } else {
        path
    }
}

/// Resolves a leading `~` component of a path against `home`.
pub fn resolve_tilde_in_path(path: &str, home: Option<String>) -> (r: String)
    ensures
        r@ == tilde_resolved_path(path@, opt_view(home)),
        is_absolute_path(path@) ==> r@ == path@,
{
    proof {
        reveal_strlit("~");
    }
    if path_has_prefix(path, "~") {
        match home {
            Some(h) => {
                if paths_equal(path, "~") {
                    h
                } else {
                    match strip_path_prefix(path, "~/") {
                        Some(rel) => join_path(h.as_str(), rel.as_str()),
                        None => string_from_chars(&chars_of(path)),
                    }
                }
            },
            None => string_from_chars(&chars_of(path)),
        }
    } else {
        string_from_chars(&chars_of(path))
    }
}

/// The absolute form of a tilde-resolved path: its canonical form when it
/// has one, else the path itself when absolute, else the path joined onto
/// the working directory (when that is known).
pub open spec fn absolute_from_observations(
    resolved: Seq<char>,
    canonical: Option<Seq<char>>,
    working_directory: Option<Seq<char>>,
) -> Seq<char> {
    match canonical {
        Some(c) => c,
        None => if is_absolute_path(resolved) {
            resolved
        } else {
            match working_directory {
                Some(d) => path_join(d, resolved),
                None => resolved,
            }
        },
    }
}

/// Completes the absolute form of a tilde-resolved path from what was
/// observed on the host: its canonical form (if it could be canonicalized)
/// and the working directory (if known).
pub fn absolute_path_from_observations(
    resolved: &str,
    canonical: Option<String>,
    working_directory: Option<String>,
) -> (r: String)
    ensures
        r@ == absolute_from_observations(resolved@, opt_view(canonical), opt_view(working_directory)),
{
    match canonical {
        Some(c) => c,
        None => if path_is_absolute(resolved) {
            string_from_chars(&chars_of(resolved))
        } else {
            match working_directory {
                Some(d) => join_path(d.as_str(), resolved),
                None => string_from_chars(&chars_of(resolved)),
            }
        },
    }
}

/// Whether four leading bytes are the ELF magic number `\x7fELF`.
pub fn is_linux_elf_magic(first_bytes: [u8; 4]) -> (r: bool)
    ensures
        r == (first_bytes@ == seq![0x7fu8, 0x45u8, 0x4cu8, 0x46u8]),
{
    let r = first_bytes[0] == 0x7f && first_bytes[1] == 0x45 && first_bytes[2] == 0x4c && first_bytes[3] == 0x46;
    if r {
        assert(first_bytes@ =~= seq![0x7fu8, 0x45u8, 0x4cu8, 0x46u8]);
    } else {
        proof {
            if first_bytes@ == seq![0x7fu8, 0x45u8, 0x4cu8, 0x46u8] {
                assert(first_bytes@[0] == 0x7f);
                assert(first_bytes@[1] == 0x45);
                assert(first_bytes@[2] == 0x4c);
                assert(first_bytes@[3] == 0x46);
            }
        }
    }
    r
}

// ==========================================
// Mount-point helpers
// ==========================================

/// The directory to create in the sandbox home so that `path`, a path
/// under the host home, has a mount point there: the corresponding place
/// in the sandbox home, or its parent when `path` is an existing
/// non-directory (such as a socket or a regular file).
pub open spec fn sandbox_mount_point(
    path: Seq<char>,
    home: Seq<char>,
    sandbox_home: Seq<char>,
    path_exists: bool,
    path_is_directory: bool,
) -> Option<Seq<char>> {
    if path_starts_with(path, home) {
        match path_strip_prefix(path, home) {
            Some(rel) => {
                let t = path_join(sandbox_home, rel);
                if path_exists && !path_is_directory {
                    path_parent(t)
                } else {
                    Some(t)
                }
            },
            None => None,
        }
    } else {
        None
    }
}

/// The directory to create in the sandbox home for a mount of `path`, if
/// `path` lies under the host home.
pub fn sandbox_home_mount_point_directory(
    path: &str,
    home: &str,
    sandbox_home: &str,
    path_exists: bool,
    path_is_directory: bool,
) -> (r: Option<String>)
    ensures
        opt_view(r) == sandbox_mount_point(path@, home@, sandbox_home@, path_exists, path_is_directory),
{
    if path_has_prefix(path, home) {
        match strip_path_prefix(path, home) {
            Some(rel) => {
                let t = join_path(sandbox_home, rel.as_str());
                if path_exists && !path_is_directory {
                    parent_path(t.as_str())
                } else {
                    Some(t)
                }
            },
            None => None,
        }
    } else {
        None
    }
}

/// Top-level system directories that bubblewrap provides by itself.
pub open spec fn is_system_directory(lower: Seq<char>) -> bool {
    lower == "/usr"@ || lower == "/etc"@ || lower == "/sys"@ || lower == "/proc"@ || lower == "/dev"@
        || lower == "/tmp"@ || lower == "/run"@ || lower == "/var"@ || lower == "/bin"@ || lower == "/sbin"@
        || lower == "/lib"@ || lower == "/lib64"@
}

/// The path and its ancestors, nearest first, up to but excluding the root
/// or the empty path, leaving out system directories.  The walk takes at
/// most `fuel` steps.
pub open spec fn non_system_ancestors(cur: Seq<char>, fuel: nat) -> Seq<Seq<char>>
    decreases fuel,
{
    if fuel == 0 {
        Seq::empty()
    } else {
        match path_parent(cur) {
            None => Seq::empty(),
            Some(parent) => if cur == "/"@ || cur.len() == 0 {
                Seq::empty()
            } else {
                (if is_system_directory(lowercase_of(cur)) {
                    Seq::<Seq<char>>::empty()
                } else {
                    seq![cur]
                }) + non_system_ancestors(parent, (fuel - 1) as nat)
            },
        }
    }
}

/// The directories bubblewrap must create for a mount destination: for a
/// directory, the directory and its ancestors; for anything else, the
/// ancestors of its parent — outermost first, without the root and without
/// system directories.  (The walk is bounded by the path's length plus one,
/// which a chain of parents, each shorter than the last, never exceeds.)
pub open spec fn non_system_parent_paths(container_path: Seq<char>, is_directory: bool) -> Seq<Seq<char>> {
    let start = if is_directory {
        Some(container_path)
    } else {
        path_parent(container_path)
    };
    match start {
        None => Seq::empty(),
        Some(s) => non_system_ancestors(s, s.len() + 1).reverse(),
    }
}

/// `a` is a strictly shorter prefix of `b`.
pub open spec fn is_strict_prefix(a: Seq<char>, b: Seq<char>) -> bool {
    a.len() < b.len() && b.take(a.len() as int) == a
}

/// Each string is a strict prefix of every later one: outermost first,
/// each once.
pub open spec fn strictly_nested(v: Seq<Seq<char>>) -> bool {
    forall|i: int, j: int| 0 <= i < j < v.len() ==> is_strict_prefix(#[trigger] v[i], #[trigger] v[j])
}

/// Where the walk of [`non_system_parent_paths`] starts.
pub open spec fn ancestor_walk_start(container_path: Seq<char>, is_directory: bool) -> Option<Seq<char>> {
    if is_directory {
        Some(container_path)
    } else {
        path_parent(container_path)
    }
}

/// The walk from `cur` up through its parents ends — at a path without a
/// parent, at the root or at the empty path — within `fuel` steps, so no
/// ancestor is cut off by the bound.
pub open spec fn ancestor_walk_completes(cur: Seq<char>, fuel: nat) -> bool
    decreases fuel,
{
    if fuel == 0 {
        false
    } else {
        match path_parent(cur) {
            None => true,
            Some(parent) => cur == "/"@ || cur.len() == 0 || ancestor_walk_completes(parent, (fuel - 1) as nat),
        }
    }
}

proof fn lemma_strict_prefix_transitive(a: Seq<char>, b: Seq<char>, c: Seq<char>)
    requires
        is_strict_prefix(a, b),
        is_strict_prefix(b, c),
    ensures
        is_strict_prefix(a, c),
{
    assert(c.take(a.len() as int) =~= c.take(b.len() as int).take(a.len() as int));
}

fn is_system_directory_exec(s: &str) -> (r: bool)
    ensures
        r == is_system_directory(lowercase_of(s@)),
{
    let l = chars_of(crate::text::to_lowercase(s).as_str());
    crate::text::chars_equal(&l, &chars_of("/usr")) || crate::text::chars_equal(&l, &chars_of("/etc"))
        || crate::text::chars_equal(&l, &chars_of("/sys")) || crate::text::chars_equal(&l, &chars_of("/proc"))
        || crate::text::chars_equal(&l, &chars_of("/dev")) || crate::text::chars_equal(&l, &chars_of("/tmp"))
        || crate::text::chars_equal(&l, &chars_of("/run")) || crate::text::chars_equal(&l, &chars_of("/var"))
        || crate::text::chars_equal(&l, &chars_of("/bin")) || crate::text::chars_equal(&l, &chars_of("/sbin"))
        || crate::text::chars_equal(&l, &chars_of("/lib")) || crate::text::chars_equal(&l, &chars_of("/lib64"))
}

/// The directories, outermost first, that bubblewrap must create inside
/// the sandbox before `container_path` can be mounted.  `is_directory` says
/// whether the path is an existing directory on the host.
pub fn get_unique_non_system_parent_paths(container_path: &str, is_directory: bool) -> (r: Vec<String>)
    ensures
        string_views(r@) == non_system_parent_paths(container_path@, is_directory),
        ancestor_walk_start(container_path@, is_directory) matches Some(s) ==> ancestor_walk_completes(s, s.len() + 1),
        strictly_nested(string_views(r@)),
{
    let start = if is_directory {
        string_from_chars(&chars_of(container_path))
    } else {
        match parent_path(container_path) {
            Some(p) => p,
            None => {
                return Vec::new();
            },
        }
    };
    let ghost s0 = start@;
    let ghost total = non_system_ancestors(start@, start@.len() + 1);
    let mut fuel: u128 = chars_of(start.as_str()).len() as u128 + 1;
    let mut nearest_first: Vec<String> = Vec::new();
    let mut cur = start;
    let ghost mut completed = false;
    assert(string_views(nearest_first@) =~= Seq::<Seq<char>>::empty());
    while fuel > 0
        invariant
            string_views(nearest_first@) + non_system_ancestors(cur@, fuel as nat) == total,
            completed ==> ancestor_walk_completes(s0, s0.len() + 1),
            completed ==> fuel == 0,
            !completed ==> ancestor_walk_completes(s0, s0.len() + 1) == ancestor_walk_completes(cur@, fuel as nat),
            !completed ==> cur@.len() + 1 <= fuel,
            forall|i: int, j: int| 0 <= i < j < nearest_first@.len() ==> is_strict_prefix(
                #[trigger] string_views(nearest_first@)[j],
                #[trigger] string_views(nearest_first@)[i],
            ),
            !completed ==> forall|i: int| 0 <= i < nearest_first@.len() ==> is_strict_prefix(
                cur@,
                #[trigger] string_views(nearest_first@)[i],
            ),
        decreases fuel,
    {
        match parent_path(cur.as_str()) {
            None => {
                assert(non_system_ancestors(cur@, fuel as nat) =~= Seq::<Seq<char>>::empty());
                assert(string_views(nearest_first@) =~= total);
                proof {
                    completed = true;
                }
                fuel = 0;
                assert(string_views(nearest_first@) + non_system_ancestors(cur@, fuel as nat) =~= total);
            },
            Some(parent) => {
                let cv = chars_of(cur.as_str());
                if cv.len() == 0 || crate::text::str_equal(cur.as_str(), "/") {
                    assert(non_system_ancestors(cur@, fuel as nat) =~= Seq::<Seq<char>>::empty());
                    assert(string_views(nearest_first@) =~= total);
                    proof {
                        completed = true;
                    }
                    fuel = 0;
                    assert(string_views(nearest_first@) + non_system_ancestors(cur@, fuel as nat) =~= total);
                } else {
                    let ghost before = string_views(nearest_first@);
                    let ghost rest = non_system_ancestors(parent@, (fuel - 1) as nat);
                    assert(is_strict_prefix(parent@, cur@));
                    assert forall|i: int| 0 <= i < before.len() implies is_strict_prefix(parent@, #[trigger] before[i]) by {
                        lemma_strict_prefix_transitive(parent@, cur@, before[i]);
                    }
                    if !is_system_directory_exec(cur.as_str()) {
                        nearest_first.push(cur);
                        assert(string_views(nearest_first@) =~= before.push(cur@));
                        assert(string_views(nearest_first@) + rest =~= before + non_system_ancestors(
                            cur@,
                            fuel as nat,
                        ));
                    } else {
                        assert(string_views(nearest_first@) + rest =~= before + non_system_ancestors(
                            cur@,
                            fuel as nat,
                        ));
                    }
                    cur = parent;
                    fuel = fuel - 1;
                }
            },
        }
    }
    assert(non_system_ancestors(cur@, 0) =~= Seq::<Seq<char>>::empty());
    assert(string_views(nearest_first@) =~= total);
    assert(completed);
    let ghost nf = string_views(nearest_first@);
    let r = reverse_strings(nearest_first);
    assert forall|i: int, j: int| 0 <= i < j < string_views(r@).len() implies is_strict_prefix(
        #[trigger] string_views(r@)[i],
        #[trigger] string_views(r@)[j],
    ) by {
        let n = nf.len() as int;
        assert(string_views(r@)[i] == nf[n - 1 - i]);
        assert(string_views(r@)[j] == nf[n - 1 - j]);
    }
    r
}

/// The strings of `v` in reverse order.
pub fn reverse_strings(v: Vec<String>) -> (r: Vec<String>)
    ensures
        string_views(r@) == string_views(v@).reverse(),
{
    let ghost sv = string_views(v@);
    let mut r: Vec<String> = Vec::new();
    let mut i: usize = v.len();
    assert(sv.skip(sv.len() as int) =~= Seq::<Seq<char>>::empty());
    assert(string_views(r@) =~= sv.skip(sv.len() as int).reverse());
    while i > 0
        invariant
            i <= v@.len(),
            sv == string_views(v@),
            string_views(r@) == sv.skip(i as int).reverse(),
        decreases i,
    {
        let ghost old_r = string_views(r@);
        r.push(v[i - 1].clone());
        assert(sv.skip(i - 1) =~= seq![sv[i - 1]] + sv.skip(i as int));
        assert(string_views(r@) =~= old_r.push(sv[i - 1]));
        assert(sv.skip(i - 1).reverse() =~= sv.skip(i as int).reverse().push(sv[i - 1]));
        i -= 1;
    }
    assert(sv.skip(0) =~= sv);
    r
}

// ==========================================
// The Wine runner
// ==========================================

/// The root of the Wine runner whose binary lies at `binary` (an absolute
/// path): two levels up when the binary's directory is named `bin*` (three
/// when the level above that is Proton's `files`), else the binary's own
/// directory.
pub open spec fn runner_root_of(binary: Seq<char>) -> Option<Seq<char>> {
    match path_parent(binary) {
        None => None,
        Some(dir) => match path_file_name(dir) {
            None => None,
            Some(name) => if starts_with(lowercase_of(name), "bin"@) {
                match path_parent(dir) {
                    None => None,
                    Some(candidate) => match path_file_name(candidate) {
                        None => None,
                        Some(candidate_name) => if lowercase_of(candidate_name) == "files"@ {
                            path_parent(candidate)
                        } else {
                            Some(candidate)
                        },
                    },
                }
            } else {
                Some(dir)
            },
        },
    }
}

/// Infers the root directory of a Wine runner (standard Wine or Proton
/// layouts) from the absolute path of its binary.
pub fn resolve_wine_runner_root_directory_from_binary_path(absolute_binary_path: &str) -> (r: Option<String>)
    ensures
        opt_view(r) == runner_root_of(absolute_binary_path@),
{
    let dir = match parent_path(absolute_binary_path) {
        Some(d) => d,
        None => {
            return None;
        },
    };
    let name = match file_name_of(dir.as_str()) {
        Some(n) => n,
        None => {
            return None;
        },
    };
    let lower = chars_of(crate::text::to_lowercase(name.as_str()).as_str());
    if crate::text::chars_start_with(&lower, &chars_of("bin")) {
        let candidate = match parent_path(dir.as_str()) {
            Some(c) => c,
            None => {
                return None;
            },
        };
        let candidate_name = match file_name_of(candidate.as_str()) {
            Some(n) => n,
            None => {
                return None;
            },
        };
        let cl = chars_of(crate::text::to_lowercase(candidate_name.as_str()).as_str());
        if crate::text::chars_equal(&cl, &chars_of("files")) {
            parent_path(candidate.as_str())
        } else {
            Some(candidate)
        }
    } else {
        Some(dir)
    }
}

// ==========================================
// Laws of slugs and fingerprints
// ==========================================

/// `s` has two `-` in a row at position `i`.
pub open spec fn dash_pair_at(s: Seq<char>, i: int) -> bool {
    s[i] == '-' && s[i + 1] == '-'
}

/// `s` has no two `-` in a row.
pub open spec fn no_double_dash(s: Seq<char>) -> bool {
    forall|i: int| 0 <= i < s.len() - 1 ==> !#[trigger] dash_pair_at(s, i)
}

proof fn lemma_collapse_dashes_clean(s: Seq<char>)
    ensures
        no_double_dash(collapse_dashes(s)),
    decreases s.len(),
{
    if s.len() > 0 {
        let p = collapse_dashes(s.drop_last());
        lemma_collapse_dashes_clean(s.drop_last());
        if !(s.last() == '-' && p.len() > 0 && p.last() == '-') {
            let q = p.push(s.last());
            assert forall|i: int| 0 <= i < q.len() - 1 implies !#[trigger] dash_pair_at(q, i) by {
                if i < p.len() - 1 {
                    assert(dash_pair_at(q, i) == dash_pair_at(p, i));
                }
            }
        }
    }
}

proof fn lemma_leading_count_stops(s: Seq<char>, c: char)
    ensures
        leading_count(s, c) <= s.len(),
        leading_count(s, c) < s.len() ==> s[leading_count(s, c) as int] != c,
    decreases s.len(),
{
    if s.len() > 0 && s[0] == c {
        lemma_leading_count_stops(s.drop_first(), c);
    }
}

proof fn lemma_trailing_count_stops(s: Seq<char>, c: char)
    ensures
        trailing_count(s, c) <= s.len(),
        trailing_count(s, c) < s.len() ==> s[s.len() - 1 - trailing_count(s, c)] != c,
    decreases s.len(),
{
    if s.len() > 0 && s.last() == c {
        lemma_trailing_count_stops(s.drop_last(), c);
    }
}

/// A slug holds no two `-` in a row, and neither begins nor ends with `-`.
pub proof fn lemma_slug_is_clean(path: Seq<char>)
    ensures
        no_double_dash(slug_of(path)),
        slug_of(path).len() > 0 ==> slug_of(path)[0] != '-' && slug_of(path).last() != '-',
{
    let c = collapse_dashes(dash_non_alphanumeric(slug_base_name(path)));
    lemma_collapse_dashes_clean(dash_non_alphanumeric(slug_base_name(path)));
    lemma_leading_count_stops(c, '-');
    let lc = leading_count(c, '-') as int;
    let u = c.skip(lc);
    lemma_trailing_count_stops(u, '-');
    let t = u.take(u.len() - trailing_count(u, '-'));
    assert(t == slug_of(path));
    assert forall|i: int| 0 <= i < t.len() - 1 implies !#[trigger] dash_pair_at(t, i) by {
        assert(t[i] == c[lc + i]);
        assert(t[i + 1] == c[lc + i + 1]);
        assert(!dash_pair_at(c, lc + i));
    }
    if t.len() > 0 {
        assert(t[0] == u[0]);
        assert(t.last() == u[u.len() - 1 - trailing_count(u, '-')]);
    }
}

/// A lowercase hexadecimal digit.
pub open spec fn is_lower_hex_digit(c: char) -> bool {
    ('0' <= c && c <= '9') || ('a' <= c && c <= 'f')
}

/// A short fingerprint is seven lowercase hexadecimal digits.
pub proof fn lemma_fingerprint_shape(s: Seq<char>)
    ensures
        short_fingerprint(s).len() == 7,
        forall|i: int| 0 <= i < 7 ==> is_lower_hex_digit(#[trigger] short_fingerprint(s)[i]),
{
    let h = fnv1a_64(encode_utf8(s));
    assert forall|n: int| 0 <= n < 16 implies is_lower_hex_digit(#[trigger] hex_digit(n)) by {
        let table = seq!['0', '1', '2', '3', '4', '5', '6', '7', '8', '9', 'a', 'b', 'c', 'd', 'e', 'f'];
        assert(hex_digit(n) == table[n]);
    }
    let f = short_fingerprint(s);
    assert forall|i: int| 0 <= i < 7 implies is_lower_hex_digit(#[trigger] f[i]) by {
        let places = seq![
            0x1000_0000_0000_0000u64, 0x100_0000_0000_0000u64, 0x10_0000_0000_0000u64, 0x1_0000_0000_0000u64,
            0x1000_0000_0000u64, 0x100_0000_0000u64, 0x10_0000_0000u64,
        ];
        assert(f[i] == hex_digit_at(h, places[i]));
        assert(0 <= (h / places[i]) % 16 < 16);
    }
}

/// Completing an absolute form twice changes nothing, when the host
/// answers consistently: a canonical path canonicalizes to itself, a path
/// that could not be canonicalized (it does not exist) cannot be once made
/// absolute either, and the working directory is absolute.  The completed
/// form is then absolute, and [`resolve_tilde_in_path`] leaves an absolute
/// path unchanged, so making a path absolute a second time — tilde step
/// included — gives the same path.
pub proof fn lemma_absolute_form_is_stable(
    resolved: Seq<char>,
    canonical: Option<Seq<char>>,
    working_directory: Option<Seq<char>>,
    canonical_again: Option<Seq<char>>,
)
    requires
        canonical matches Some(c) ==> canonical_again == Some(c),
        canonical is None ==> canonical_again is None,
        working_directory matches Some(d) ==> is_absolute_path(d),
    ensures
        absolute_from_observations(
            absolute_from_observations(resolved, canonical, working_directory),
            canonical_again,
            working_directory,
        ) == absolute_from_observations(resolved, canonical, working_directory),
        (canonical matches Some(c) ==> is_absolute_path(c)) && (working_directory is Some || is_absolute_path(resolved))
            ==> is_absolute_path(absolute_from_observations(resolved, canonical, working_directory)),
{
    if canonical is None && !is_absolute_path(resolved) {
        if let Some(d) = working_directory {
            let a = path_join(d, resolved);
            assert(a[0] == d[0]);
        }
    }
}

} // verus!
