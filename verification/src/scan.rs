use vstd::prelude::*;

verus! {

/// One directory entry as the platform reports it from a non-recursive
/// listing: its full path, its file name (the last path component), and
/// whether it is a regular file.
#[derive(Debug, Clone)]
pub struct FileEntry {
    pub path: String,
    pub name: String,
    pub is_file: bool,
}

/// Why a service's directory could not be scanned; the service is skipped
/// this cycle, siblings are unaffected.
#[derive(Clone, Copy, Debug, PartialEq, Eq, Structural)]
pub enum ScanError {
    DirectoryMissing,
    DirectoryUnreadable,
}

/// `s` ends with the given suffix.
pub open spec fn ends_with(s: Seq<char>, suffix: Seq<char>) -> bool {
    &&& s.len() >= suffix.len()
    &&& forall|j: int|
        0 <= j < suffix.len() ==> s[s.len() - suffix.len() + j] == #[trigger] suffix[j]
}

pub open spec fn txt_suffix() -> Seq<char> {
    seq!['.', 't', 'x', 't']
}

pub open spec fn log_suffix() -> Seq<char> {
    seq!['.', 'l', 'o', 'g']
}

/// A file name carrying an allowed log extension: it ends in `.txt` or
/// `.log` with at least one character before the dot (a bare `.txt` is a
/// hidden file without an extension).
pub open spec fn has_log_extension(name: Seq<char>) -> bool {
    name.len() >= 5 && (ends_with(name, txt_suffix()) || ends_with(name, log_suffix()))
}

/// The entries a scan keeps: regular files whose name carries an allowed
/// extension.
pub open spec fn entry_selected(e: FileEntry) -> bool {
    e.is_file && has_log_extension(e.name@)
}

/// The sub-sequence of a listing that a scan keeps, in listing order.
pub open spec fn selected_entries(entries: Seq<FileEntry>) -> Seq<FileEntry>
    decreases entries.len(),
{
    if entries.len() == 0 {
        seq![]
    } else {
        let rest = selected_entries(entries.drop_last());
        if entry_selected(entries.last()) {
            rest.push(entries.last())
        } else {
            rest
        }
    }
}

/// The paths of the kept entries, in listing order.
pub open spec fn selected_paths(entries: Seq<FileEntry>) -> Seq<String> {
    selected_entries(entries).map_values(|e: FileEntry| e.path)
}

/// Checks that `name` ends with the four given characters.
fn check_suffix4(name: &str, a: char, b: char, c: char, d: char) -> (r: bool)
    ensures
        r == ends_with(name@, seq![a, b, c, d]),
{
    let n: usize = name.unicode_len();
    let ghost suffix = seq![a, b, c, d];
    if n < 4 {
        return false;
    }
    let r: bool = name.get_char(n - 4) == a && name.get_char(n - 3) == b && name.get_char(n - 2)
        == c && name.get_char(n - 1) == d;
    proof {
        if r {
            assert forall|j: int| 0 <= j < suffix.len() implies name@[n - suffix.len() + j]
                == suffix[j] by {
                if j == 0 {
                    assert(name@[n - 4] == a);
                } else if j == 1 {
                    assert(name@[n - 3] == b);
                } else if j == 2 {
                    assert(name@[n - 2] == c);
                } else {
                    assert(name@[n - 1] == d);
                }
            }
        }
    }
    r
}

/// Decides whether a file name is on the log-extension allow-list.
pub fn is_log_file_name(name: &str) -> (r: bool)
    ensures
        r == has_log_extension(name@),
{
    let n: usize = name.unicode_len();
    if n < 5 {
        return false;
    }
    let txt: bool = check_suffix4(name, '.', 't', 'x', 't');
    let log: bool = check_suffix4(name, '.', 'l', 'o', 'g');
    txt || log
}

/// A scanned directory: which application it belongs to, its resolved
/// service id, and the log-file paths the scan selected.
#[derive(Debug, Clone)]
pub struct Directory {
    pub application_name: String,
    pub service_id: Option<String>,
    pub files: Vec<String>,
}

impl Default for Directory {
    /// An unattributed directory with no selected files.
    fn default() -> (r: Directory)
        ensures
            r.application_name@.len() == 0,
            r.service_id is None,
            r.files@.len() == 0,
    {
        Directory { application_name: String::new(), service_id: None, files: Vec::new() }
    }
}

impl Directory {
    /// Keeps, from one non-recursive directory listing, exactly the regular
    /// files whose extension is on the allow-list, appending their paths in
    /// listing order. Subdirectories are never entered: anything that is
    /// not a regular file is dropped here, and the listing itself is flat.
    pub fn select_log_files(&mut self, entries: &Vec<FileEntry>)
        ensures
            final (self).application_name@ == old(self).application_name@,
            final (self).service_id == old(self).service_id,
            final (self).files@ =~= old(self).files@ + selected_paths(entries@),
    {
        let ghost files0 = self.files@;
        let n: usize = entries.len();
        let mut i: usize = 0;
        proof {
            assert(entries@.subrange(0, 0) =~= Seq::<FileEntry>::empty());
            assert(self.files@ =~= files0 + selected_paths(entries@.subrange(0, 0)));
        }
        while i < n
            invariant
                i <= n,
                n == entries@.len(),
                self.application_name@ == old(self).application_name@,
                self.service_id == old(self).service_id,
                files0 == old(self).files@,
                self.files@ =~= files0 + selected_paths(entries@.subrange(0, i as int)),
            decreases n - i,
        {
            let ghost prefix = entries@.subrange(0, i as int);
            let selected: bool = entries[i].is_file && is_log_file_name(entries[i].name.as_str());
            if selected {
                self.files.push(entries[i].path.clone());
            }
            proof {
                let prefix1 = entries@.subrange(0, i + 1);
                assert(prefix1.drop_last() =~= prefix);
                assert(prefix1.last() == entries@[i as int]);
                if selected {
                    assert(selected_paths(prefix1) =~= selected_paths(prefix).push(
                        entries@[i as int].path,
                    ));
                    assert(self.files@ =~= files0 + selected_paths(prefix1));
                } else {
                    assert(selected_paths(prefix1) =~= selected_paths(prefix));
                }
            }
            i += 1;
        }
        proof {
            assert(entries@.subrange(0, n as int) =~= entries@);
        }
    }
}

/// A scan never keeps a file whose extension is off the allow-list, and it
/// never descends into subdirectories: every kept entry is a regular file
/// of the flat listing, and its name carries an allowed extension.
pub proof fn lemma_scan_allowlist(entries: Seq<FileEntry>, i: int)
    requires
        0 <= i < selected_entries(entries).len(),
    ensures
        has_log_extension(selected_entries(entries)[i].name@),
        selected_entries(entries)[i].is_file,
        exists|j: int| 0 <= j < entries.len() && selected_entries(entries)[i] == entries[j],
    decreases entries.len(),
{
    let sel = selected_entries(entries);
    let rest = selected_entries(entries.drop_last());
    if i < rest.len() {
        lemma_scan_allowlist(entries.drop_last(), i);
        let j = choose|j: int|
            0 <= j < entries.drop_last().len() && selected_entries(entries.drop_last())[i]
                == entries.drop_last()[j];
        assert(entries.drop_last()[j] == entries[j]);
    } else {
        assert(entry_selected(entries.last()));
        assert(sel[i] == entries.last());
        assert(sel[i] == entries[entries.len() - 1]);
    }
}

} // verus!
