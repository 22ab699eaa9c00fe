//! One stored entry: its directory and, once known, its repository record.
use vstd::prelude::*;

use crate::record::{Repo, RepoView};

verus! {

/// Errors of an operation on one volume.
#[derive(Debug, PartialEq, Eq, Structural)]
pub enum VolumeError {
    /// The volume's record is not known yet.
    MissingRepo,
}

/// The state of a volume's record: reserved but not yet known, or known.
pub enum Record {
    Draft,
    Ready(Repo),
}

/// A volume: the directory that holds one repository and its record.
pub struct Volume {
    pub path: String,
    pub record: Record,
}

pub ghost struct VolumeView {
    pub path: Seq<char>,
    pub record: Option<RepoView>,
}

impl View for Volume {
    type V = VolumeView;

    open spec fn view(&self) -> VolumeView {
        VolumeView {
            path: self.path@,
            record: match self.record {
                Record::Draft => None,
                Record::Ready(r) => Some(r@),
            },
        }
    }
}

/// What reading a volume's `repo.json` found.
pub enum RecordProbe {
    /// No file is there.
    Missing,
    /// Something is there, but not a regular file.
    NotAFile,
    /// The file could not be read; the reason.
    ReadFailed(String),
    /// The content is no valid record; the reason.
    Unparsable(String),
    /// The record the file holds.
    Parsed(Repo),
}

/// Why a volume's record could not be loaded.
#[derive(Debug, PartialEq, Eq)]
pub enum LoadError {
    Missing,
    NotAFile,
    ReadFailed(String),
    Unparsable(String),
}

/// Whether setting the lock flag of a ready volume to `locked` changes it.
pub open spec fn lock_changes(v: VolumeView, locked: bool) -> bool {
    v.record->Some_0.locked != locked
}

/// A ready volume with its lock flag set to `locked`.
pub open spec fn with_lock(v: VolumeView, locked: bool) -> VolumeView {
    VolumeView { path: v.path, record: Some(RepoView { locked, ..v.record->Some_0 }) }
}

/// Setting the lock flag to the same value twice changes the record, and
/// so asks for a save, at most once: the second call changes nothing.
pub proof fn lemma_lock_saves_once(v: VolumeView, locked: bool)
    requires
        v.record is Some,
    ensures
        with_lock(v, locked).record is Some,
        !lock_changes(with_lock(v, locked), locked),
        with_lock(with_lock(v, locked), locked) == with_lock(v, locked),
        with_lock(v, locked).record->Some_0.locked == locked,
{
}

/// The name of the file under a volume's directory that holds its record.
pub open spec fn record_file_name() -> Seq<char> {
    seq!['r', 'e', 'p', 'o', '.', 'j', 's', 'o', 'n']
}

/// `dir` joined with `name` by a path separator.
pub open spec fn join_path(dir: Seq<char>, name: Seq<char>) -> Seq<char> {
    dir + seq!['/'] + name
}

/// Joins a directory and a name with a path separator.
pub fn join(dir: &str, name: &str) -> (r: String)
    ensures
        r@ == join_path(dir@, name@),
{
    let mut r = dir.to_string();
    r.append("/");
    r.append(name);
    proof {
        reveal_strlit("/");
    }
    r
}

impl Volume {
    /// A volume in `path` whose record is not known yet.
    pub fn draft(path: String) -> (r: Volume)
        ensures
            r@.path == path@,
            r@.record is None,
    {
        Volume { path, record: Record::Draft }
    }

    /// A volume in `path` with a known record.
    pub fn ready(path: String, repo: Repo) -> (r: Volume)
        ensures
            r@.path == path@,
            r@.record == Some(repo@),
    {
        Volume { path, record: Record::Ready(repo) }
    }

    /// The directory of the volume.
    pub fn path(&self) -> (r: &String)
        ensures
            r@ == self@.path,
    {
        &self.path
    }

    pub open spec fn is_ready(&self) -> bool {
        self@.record is Some
    }

    /// The record, or `MissingRepo` while it is not known.
    pub fn get_repo(&self) -> (r: Result<&Repo, VolumeError>)
        ensures
            self.is_ready() <==> r is Ok,
            r is Ok ==> Some(r->Ok_0@) == self@.record,
            r is Err ==> r->Err_0 == VolumeError::MissingRepo,
    {
        match &self.record {
            Record::Ready(repo) => Ok(repo),
            Record::Draft => Err(VolumeError::MissingRepo),
        }
    }

    /// The name that created the record.
    pub fn get_name(&self) -> (r: Result<String, VolumeError>)
        ensures
            self.is_ready() <==> r is Ok,
            r is Ok ==> r->Ok_0@ == self@.record->Some_0.origin_name,
            r is Err ==> r->Err_0 == VolumeError::MissingRepo,
    {
        let repo = self.get_repo()?;
        Ok(repo.origin_name.clone())
    }

    /// The record, to be changed in place; `MissingRepo` while it is not known.
    pub fn get_repo_mut(&mut self) -> (r: Result<&mut Repo, VolumeError>)
        ensures
            old(self).is_ready() <==> r is Ok,
            r is Ok ==> Some(r->Ok_0@) == old(self)@.record,
            r is Ok ==> final(self)@ == (VolumeView {
                path: old(self)@.path,
                record: Some((*final(r->Ok_0))@),
            }),
            r is Err ==> r->Err_0 == VolumeError::MissingRepo && final(self)@ == old(self)@,
    {
        match &mut self.record {
            Record::Ready(repo) => Ok(repo),
            Record::Draft => Err(VolumeError::MissingRepo),
        }
    }

    /// Whether a clone or a fetch holds the record.
    pub fn is_locked(&self) -> (r: Result<bool, VolumeError>)
        ensures
            self.is_ready() <==> r is Ok,
            r is Ok ==> r->Ok_0 == self@.record->Some_0.locked,
            r is Err ==> r->Err_0 == VolumeError::MissingRepo,
    {
        Ok(self.get_repo()?.locked)
    }

    /// Sets the lock flag of the record. Returns whether it changed, which is
    /// when the record must be saved again.
    pub fn lock_repo(&mut self, locked: bool) -> (r: Result<bool, VolumeError>)
        ensures
            old(self).is_ready() <==> r is Ok,
            r is Ok ==> r->Ok_0 == lock_changes(old(self)@, locked),
            r is Ok ==> final(self)@ == with_lock(old(self)@, locked),
            r is Err ==> r->Err_0 == VolumeError::MissingRepo && final(self)@ == old(self)@,
    {
        match &mut self.record {
            Record::Ready(repo) => {
                if repo.locked != locked {
                    repo.locked = locked;
                    Ok(true)
                } else {
                    Ok(false)
                }
            },
            Record::Draft => Err(VolumeError::MissingRepo),
        }
    }

    /// The file that holds the record of the volume.
    pub fn record_file(&self) -> (r: String)
        ensures
            r@ == join_path(self@.path, record_file_name()),
    {
        let r = join(self.path.as_str(), "repo.json");
        proof {
            reveal_strlit("repo.json");
            assert("repo.json"@ =~= record_file_name());
        }
        r
    }

    /// Takes in what reading the record file found: a parsed record makes
    /// the volume ready, and each other outcome is its own error, with the
    /// volume left as it was.
    pub fn load_repo(&mut self, probe: RecordProbe) -> (r: Result<(), LoadError>)
        ensures
            match probe {
                RecordProbe::Parsed(repo) => r is Ok && final(self)@ == (VolumeView {
                    path: old(self)@.path,
                    record: Some(repo@),
                }),
                RecordProbe::Missing => r == Err::<(), LoadError>(LoadError::Missing)
                    && final(self)@ == old(self)@,
                RecordProbe::NotAFile => r == Err::<(), LoadError>(LoadError::NotAFile)
                    && final(self)@ == old(self)@,
                RecordProbe::ReadFailed(e) => r == Err::<(), LoadError>(LoadError::ReadFailed(e))
                    && final(self)@ == old(self)@,
                RecordProbe::Unparsable(e) => r == Err::<(), LoadError>(
                    LoadError::Unparsable(e),
                ) && final(self)@ == old(self)@,
            },
    {
        match probe {
            RecordProbe::Parsed(repo) => {
                self.record = Record::Ready(repo);
                Ok(())
            },
            RecordProbe::Missing => Err(LoadError::Missing),
            RecordProbe::NotAFile => Err(LoadError::NotAFile),
            RecordProbe::ReadFailed(e) => Err(LoadError::ReadFailed(e)),
            RecordProbe::Unparsable(e) => Err(LoadError::Unparsable(e)),
        }
    }
}

} // verus!
