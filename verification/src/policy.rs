//! The exclusion policy: the set of directory (and, in principle, file)
//! names that a traversal skips.

use vstd::prelude::*;

verus! {

/// Mathematical view of an exclusion policy: the excluded directory names
/// and the excluded file names, as sequences of character sequences.
pub struct PolicyView {
    pub dirs: Seq<Seq<char>>,
    pub files: Seq<Seq<char>>,
}

/// The exclusion policy state: names of directories and files to skip
/// during a traversal. The file set is held but not yet enforced:
/// `should_skip` never skips a plain file entry.
pub struct State {
    pub excluded_directories: Vec<String>,
    pub excluded_files: Vec<String>,
}

impl View for State {
    type V = PolicyView;

    open spec fn view(&self) -> PolicyView {
        PolicyView {
            dirs: self.excluded_directories@.map_values(|s: String| s@),
            files: self.excluded_files@.map_values(|s: String| s@),
        }
    }
}

/// A directory entry is skipped iff its base name is in the excluded
/// directory set; a plain file entry is never skipped by the policy.
pub open spec fn spec_should_skip(policy: PolicyView, name: Seq<char>, is_dir: bool) -> bool {
    is_dir && policy.dirs.contains(name)
}

impl State {
    /// The default policy: skip version-control metadata, dependency
    /// caches, build output and IDE project directories; no file names.
    pub fn new() -> (s: State)
        ensures
            s@.dirs =~= seq![
                "node_modules"@,
                ".git"@,
                "target"@,
                ".idea"@,
            ],
            s@.files =~= Seq::<Seq<char>>::empty(),
    {
        State {
            excluded_files: vec![],
            excluded_directories: vec![
                String::from_str("node_modules"),
                String::from_str(".git"),
                String::from_str("target"),
                String::from_str(".idea"),
            ],
        }
    }

    /// Whether a traversal must skip the entry with the given base name.
    pub fn should_skip(&self, name: &str, is_dir: bool) -> (r: bool)
        ensures
            r == spec_should_skip(self@, name@, is_dir),
    {
        if !is_dir {
            return false;
        }
        let name_string = String::from_str(name);
        let n = self.excluded_directories.len();
        let mut i: usize = 0;
        while i < n
            invariant
                n == self.excluded_directories.len(),
                i <= n,
                is_dir,
                name_string@ == name@,
                forall|j: int| 0 <= j < i ==> self@.dirs[j] != name@,
            decreases n - i,
        {
            if self.excluded_directories[i] == name_string {
                assert(self@.dirs[i as int] == name@);
                assert(self@.dirs.contains(name@));
                return true;
            }
            i = i + 1;
        }
        assert(!self@.dirs.contains(name@));
        false
    }
}

} // verus!
