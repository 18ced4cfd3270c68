//! Facts about the host file system and process environment, gathered by
//! the caller before a pipeline stage runs, so that the stage itself is a
//! function of plain values.
use vstd::prelude::*;
use crate::host_path::opt_view;

verus! {

/// What was observed about one path on the host.
pub struct HostPathRecord {
    /// The path as it was asked for.
    pub path: String,
    /// The path made absolute: `~` expanded, then canonicalized, or else
    /// joined onto the working directory.
    pub absolute: String,
    /// Whether the path exists.
    pub exists: bool,
    /// Whether the path is a regular file (symbolic links followed).
    pub is_file: bool,
    /// Whether the path is a directory (symbolic links followed).
    pub is_directory: bool,
    /// The canonical form of the path, if it could be canonicalized.
    pub canonical: Option<String>,
    /// Whether the path is a file whose first four bytes are `\x7fELF`.
    pub is_linux_elf: bool,
}

/// A set of observations about host paths.  A path that was not observed
/// counts as absent: not existing, neither file nor directory, without a
/// canonical form, and already absolute as written.
pub struct HostSnapshot {
    pub records: Vec<HostPathRecord>,
}

/// The process environment values the pipeline reads.
pub struct HostEnvironment {
    /// `HOME`.
    pub home: Option<String>,
    /// `PATH`.
    pub search_path: Option<String>,
    /// The current working directory.
    pub current_directory: Option<String>,
    /// `XDG_RUNTIME_DIR`.
    pub xdg_runtime_dir: Option<String>,
    /// `WAYLAND_DISPLAY`.
    pub wayland_display: Option<String>,
}

/// The first record for path `p`.
pub open spec fn find_record(records: Seq<HostPathRecord>, p: Seq<char>) -> Option<HostPathRecord>
    decreases records.len(),
{
    if records.len() == 0 {
        None
    } else if records[0].path@ == p {
        Some(records[0])
    } else {
        find_record(records.drop_first(), p)
    }
}

impl HostSnapshot {
    /// The record observed for `p`.
    pub open spec fn record(self, p: Seq<char>) -> Option<HostPathRecord> {
        find_record(self.records@, p)
    }

    /// Whether `p` was observed.
    pub open spec fn observed(self, p: Seq<char>) -> bool {
        self.record(p) is Some
    }

    /// `p` made absolute.
    pub open spec fn absolute(self, p: Seq<char>) -> Seq<char> {
        match self.record(p) {
            Some(r) => r.absolute@,
            None => p,
        }
    }

    /// Whether `p` exists.
    pub open spec fn path_exists(self, p: Seq<char>) -> bool {
        match self.record(p) {
            Some(r) => r.exists,
            None => false,
        }
    }

    /// Whether `p` is a regular file.
    pub open spec fn is_file(self, p: Seq<char>) -> bool {
        match self.record(p) {
            Some(r) => r.is_file,
            None => false,
        }
    }

    /// Whether `p` is a directory.
    pub open spec fn is_directory(self, p: Seq<char>) -> bool {
        match self.record(p) {
            Some(r) => r.is_directory,
            None => false,
        }
    }

    /// The canonical form of `p`.
    pub open spec fn canonical(self, p: Seq<char>) -> Option<Seq<char>> {
        match self.record(p) {
            Some(r) => opt_view(r.canonical),
            None => None,
        }
    }

    /// Whether `p` is a native Linux ELF file.
    pub open spec fn is_linux_elf(self, p: Seq<char>) -> bool {
        match self.record(p) {
            Some(r) => r.is_linux_elf,
            None => false,
        }
    }

    /// An empty snapshot.
    pub fn new() -> (r: Self)
        ensures
            r.records@.len() == 0,
    {
        HostSnapshot { records: Vec::new() }
    }

    /// Index of the record for `p`.
    pub fn find(&self, p: &str) -> (r: Option<usize>)
        ensures
            match r {
                Some(i) => i < self.records@.len() && self.record(p@) == Some(self.records@[i as int]),
                None => self.record(p@) is None,
            },
    {
        let mut i: usize = 0;
        assert(self.records@.skip(0) =~= self.records@);
        while i < self.records.len()
            invariant
                i <= self.records@.len(),
                find_record(self.records@, p@) == find_record(self.records@.skip(i as int), p@),
            decreases self.records@.len() - i,
        {
            let ghost t = self.records@.skip(i as int);
            assert(t.drop_first() =~= self.records@.skip(i + 1));
            assert(t[0] == self.records@[i as int]);
            if crate::text::str_equal(self.records[i].path.as_str(), p) {
                return Some(i);
            }
            i += 1;
        }
        None
    }

    /// Whether `p` was observed.
    pub fn has_record(&self, p: &str) -> (r: bool)
        ensures
            r == self.observed(p@),
    {
        self.find(p).is_some()
    }

    /// `p` made absolute.
    pub fn absolute_of(&self, p: &str) -> (r: String)
        ensures
            r@ == self.absolute(p@),
    {
        match self.find(p) {
            Some(i) => self.records[i].absolute.clone(),
            None => crate::text::string_from_chars(&crate::text::chars_of(p)),
        }
    }

    /// Whether `p` exists.
    pub fn exists_at(&self, p: &str) -> (r: bool)
        ensures
            r == self.path_exists(p@),
    {
        match self.find(p) {
            Some(i) => self.records[i].exists,
            None => false,
        }
    }

    /// Whether `p` is a regular file.
    pub fn is_file_at(&self, p: &str) -> (r: bool)
        ensures
            r == self.is_file(p@),
    {
        match self.find(p) {
            Some(i) => self.records[i].is_file,
            None => false,
        }
    }

    /// Whether `p` is a directory.
    pub fn is_directory_at(&self, p: &str) -> (r: bool)
        ensures
            r == self.is_directory(p@),
    {
        match self.find(p) {
            Some(i) => self.records[i].is_directory,
            None => false,
        }
    }

    /// The canonical form of `p`.
    pub fn canonical_of(&self, p: &str) -> (r: Option<String>)
        ensures
            opt_view(r) == self.canonical(p@),
    {
        match self.find(p) {
            Some(i) => match &self.records[i].canonical {
                Some(c) => Some(c.clone()),
                None => None,
            },
            None => None,
        }
    }

    /// Whether `p` is a native Linux ELF file.
    pub fn is_linux_elf_at(&self, p: &str) -> (r: bool)
        ensures
            r == self.is_linux_elf(p@),
    {
        match self.find(p) {
            Some(i) => self.records[i].is_linux_elf,
            None => false,
        }
    }
}

impl HostSnapshot {
    /// Every recorded absolute form is an absolute path (as it is when the
    /// working directory could be read).
    pub open spec fn absolute_forms_are_absolute(self) -> bool {
        forall|i: int| 0 <= i < self.records@.len() ==> crate::host_path::is_absolute_path(#[trigger] self.records@[i].absolute@)
    }
}

/// The record found for a path is one of the records.
pub proof fn lemma_found_record_is_recorded(records: Seq<HostPathRecord>, p: Seq<char>)
    ensures
        find_record(records, p) matches Some(r) ==> exists|i: int| 0 <= i < records.len() && records[i] == r,
    decreases records.len(),
{
    if records.len() > 0 && records[0].path@ != p {
        lemma_found_record_is_recorded(records.drop_first(), p);
        if let Some(r) = find_record(records.drop_first(), p) {
            let i = choose|i: int| 0 <= i < records.drop_first().len() && records.drop_first()[i] == r;
            assert(records[i + 1] == r);
        }
    } else if records.len() > 0 {
        assert(records[0] == find_record(records, p)->0);
    }
}

} // verus!
