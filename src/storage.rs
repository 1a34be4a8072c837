//! Where the task file lives, and what a read of it yields.
use vstd::prelude::*;
use crate::task::Task;

verus! {

/// What reading and decoding the task file gave.
pub enum FileRead {
    /// There is no file, or it could not be read.
    Absent,
    /// The file was read but does not decode as a task list.
    Undecodable,
    /// The file decoded to these tasks.
    Decoded(Vec<Task>),
}

/// How a load went.
#[derive(Clone, Copy, Debug, PartialEq, Eq, Structural)]
pub enum LoadStatus {
    /// No file yet: the collection starts empty.
    Missing,
    /// The stored collection was taken as it is.
    Loaded,
    /// A stored task has an empty description: the file was tampered with.
    Corrupted,
    /// The file could not be decoded.
    Unparseable,
}

/// Every task has a non-empty description.
pub open spec fn intact(tasks: Seq<Task>) -> bool {
    forall|i: int| 0 <= i < tasks.len() ==> (#[trigger] tasks[i]).description@.len() > 0
}

/// The collection and the status that a load makes of `read`.
pub open spec fn load_outcome(read: FileRead) -> (Seq<Task>, LoadStatus) {
    match read {
        FileRead::Absent => (Seq::empty(), LoadStatus::Missing),
        FileRead::Undecodable => (Seq::empty(), LoadStatus::Unparseable),
        FileRead::Decoded(v) => if intact(v@) {
            (v@, LoadStatus::Loaded)
        } else {
            (Seq::empty(), LoadStatus::Corrupted)
        },
    }
}

/// The task file's place under a base directory.
pub open spec fn file_under(base: Seq<char>) -> Seq<char> {
    base + "/todo-cli/.todo_data.json"@
}

/// The base directory: the data directory, else the home directory, else `.`.
pub open spec fn chosen_base(data_dir: Option<Seq<char>>, home_dir: Option<Seq<char>>) -> Seq<char> {
    match data_dir {
        Some(d) => d,
        None => match home_dir {
            Some(h) => h,
            None => "."@,
        },
    }
}

/// Relies on `dirs::data_dir`: the platform's per-user data directory, if one
/// is known, as text.
#[verifier::external_body]
fn data_dir() -> (r: Option<String>) {
    match dirs::data_dir() {
        Some(p) => Some(p.to_string_lossy().to_string()),
        None => None,
    }
}

/// Relies on `dirs::home_dir`: the user's home directory, if one is known, as
/// text.
#[verifier::external_body]
fn home_dir() -> (r: Option<String>) {
    match dirs::home_dir() {
        Some(p) => Some(p.to_string_lossy().to_string()),
        None => None,
    }
}

/// The location of the task file.
pub struct Storage {
    file_path: String,
}

impl Storage {
    pub closed spec fn path(&self) -> Seq<char> {
        self.file_path@
    }

    /// The store under the platform's directories, as found at the time of the call.
    pub fn new() -> (r: Storage)
        ensures
            exists|base: Seq<char>| r.path() == file_under(base),
    {
        let d = data_dir();
        let h = home_dir();
        Storage::with_dirs(d, h)
    }

    /// The store under the given data and home directories.
    pub fn with_dirs(data_dir: Option<String>, home_dir: Option<String>) -> (r: Storage)
        ensures
            r.path() == file_under(
                chosen_base(
                    match data_dir {
                        Some(d) => Some(d@),
                        None => None,
                    },
                    match home_dir {
                        Some(h) => Some(h@),
                        None => None,
                    },
                ),
            ),
    {
        let base: String = match data_dir {
            Some(d) => d,
            None => match home_dir {
                Some(h) => h,
                None => ".".to_owned(),
            },
        };
        proof {
            reveal_strlit(".");
        }
        let file_path = base.concat("/todo-cli/.todo_data.json");
        Storage { file_path }
    }

    pub fn file_path(&self) -> (r: &String)
        ensures
            r@ == self.path(),
    {
        &self.file_path
    }

    /// Whether every task has a non-empty description.
    pub fn verify_file_integrity(tasks: &Vec<Task>) -> (r: bool)
        ensures
            r == intact(tasks@),
    {
        let mut i: usize = 0;
        while i < tasks.len()
            invariant
                i <= tasks.len(),
                forall|j: int| 0 <= j < i ==> (#[trigger] tasks@[j]).description@.len() > 0,
            decreases tasks.len() - i,
        {
            if tasks[i].description.as_str().is_empty() {
                return false;
            }
            i = i + 1;
        }
        true
    }

    /// The collection to start from, given what reading the file gave: a
    /// decoded collection only if every description is non-empty, and an
    /// empty one otherwise.
    pub fn load_tasks(&self, read: FileRead) -> (r: (Vec<Task>, LoadStatus))
        ensures
            (r.0@, r.1) == load_outcome(read),
    {
        match read {
            FileRead::Absent => (Vec::new(), LoadStatus::Missing),
            FileRead::Undecodable => (Vec::new(), LoadStatus::Unparseable),
            FileRead::Decoded(v) => {
                if Storage::verify_file_integrity(&v) {
                    (v, LoadStatus::Loaded)
                } else {
                    (Vec::new(), LoadStatus::Corrupted)
                }
            },
        }
    }
}

} // verus!
