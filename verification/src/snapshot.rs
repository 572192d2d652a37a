//! One directory as it was read: its path and its entries in listing order.

use vstd::prelude::*;
use crate::error::DirectoryError;
use crate::listing::{is_listing, listing_of, texts};
use crate::order::is_sorted;
use crate::paths::{parent_dir, parent_of};

verus! {

/// What a host read of a directory's children, in the order it met them: the
/// name of each child that could be read, the failure of each that could not.
pub type Children = Vec<Result<String, DirectoryError>>;

/// What a host read of a directory: its children, or why it could not be
/// opened.
pub type Reading = Result<Children, DirectoryError>;

/// The directory was opened and every child in it was read.
pub open spec fn all_read(reading: Reading) -> bool {
    &&& reading is Ok
    &&& forall|i: int| 0 <= i < reading->Ok_0@.len() ==> reading->Ok_0@[i] is Ok
}

/// The names of the children, in the order read. Says something only where
/// all of them could be read.
pub open spec fn read_names(reading: Reading) -> Seq<Seq<char>> {
    Seq::new(reading->Ok_0@.len(), |i: int| reading->Ok_0@[i]->Ok_0@)
}

/// Child `i` is the first that could not be read.
pub open spec fn fails_first_at(children: Seq<Result<String, DirectoryError>>, i: int) -> bool {
    &&& 0 <= i < children.len()
    &&& children[i] is Err
    &&& forall|j: int| 0 <= j < i ==> children[j] is Ok
}

/// Reading met its first failure for the reason `reason`: that of opening
/// the directory, or else that of the first child that could not be read.
pub open spec fn failed_with(reading: Reading, reason: Seq<char>) -> bool {
    match reading {
        Err(unopened) => reason == unopened@,
        Ok(children) => exists|i: int|
            fails_first_at(children@, i) && reason == (#[trigger] children@[i])->Err_0@,
    }
}

/// A reading got everything or has failed, never both, and it has failed
/// for one reason only.
pub proof fn lemma_all_read_or_failed(reading: Reading)
    ensures
        all_read(reading) <==> !exists|reason: Seq<char>| failed_with(reading, reason),
        forall|r1: Seq<char>, r2: Seq<char>|
            failed_with(reading, r1) && failed_with(reading, r2) ==> r1 == r2,
{
    match reading {
        Err(unopened) => {
            assert(failed_with(reading, unopened@));
        },
        Ok(children) => {
            if !all_read(reading) {
                let i = first_unread(children@, children@.len() as int);
                assert(failed_with(reading, children@[i]->Err_0@));
            }
            assert forall|r1: Seq<char>, r2: Seq<char>|
                failed_with(reading, r1) && failed_with(reading, r2) implies r1 == r2 by {
                let i = choose|i: int|
                    fails_first_at(children@, i) && r1 == (#[trigger] children@[i])->Err_0@;
                let j = choose|j: int|
                    fails_first_at(children@, j) && r2 == (#[trigger] children@[j])->Err_0@;
                if i < j {
                    assert(children@[i] is Ok);
                } else if j < i {
                    assert(children@[j] is Ok);
                }
            }
        },
    }
}

/// Among the first `n` children, one of which could not be read, the first
/// that could not.
proof fn first_unread(children: Seq<Result<String, DirectoryError>>, n: int) -> (i: int)
    requires
        0 <= n <= children.len(),
        exists|k: int| 0 <= k < n && children[k] is Err,
    ensures
        fails_first_at(children, i),
    decreases n,
{
    if exists|k: int| 0 <= k < n - 1 && children[k] is Err {
        first_unread(children, n - 1)
    } else {
        n - 1
    }
}

/// Takes the names out of what was read of the children, in the order read,
/// and stops at the first child that could not be read.
pub fn collect_names(children: Children) -> (r: Result<Vec<String>, DirectoryError>)
    ensures
        r is Ok <==> all_read(Ok(children)),
        match r {
            Ok(names) => texts(names@) == read_names(Ok(children)),
            Err(e) => failed_with(Ok(children), e@),
        },
{
    let mut names: Vec<String> = Vec::new();
    for child in it: children.into_iter()
        invariant
            it.seq() == children@,
            names.len() == it.index(),
            forall|i: int|
                0 <= i < it.index() ==> children@[i] == Ok::<String, DirectoryError>(names@[i]),
    {
        match child {
            Ok(name) => {
                names.push(name);
            },
            Err(e) => {
                assert(fails_first_at(children@, it.index() as int));
                return Err(e);
            },
        }
    }
    assert(texts(names@) =~= read_names(Ok(children)));
    Ok(names)
}

/// A directory as it was read: where it is, and what is listed in it.
#[derive(Debug)]
pub struct DirectorySnapshot {
    path: String,
    entries: Vec<String>,
}

impl DirectorySnapshot {
    /// The directory's path, as text.
    pub closed spec fn dir(&self) -> Seq<char> {
        self.path@
    }

    /// The entries, as text, in the order listed.
    pub closed spec fn names(&self) -> Seq<Seq<char>> {
        texts(self.entries@)
    }

    /// The entries are kept in listing order.
    #[verifier::type_invariant]
    pub open spec fn ordered(&self) -> bool {
        is_sorted(self.names())
    }

    /// The snapshot of the directory at `path` from what a host read there,
    /// told whether the directory has a parent.
    ///
    /// Fails with the first failure of the reading, and only if there was one.
    pub fn with_parent_known(path: String, has_parent: bool, reading: Reading) -> (r: Result<
        DirectorySnapshot,
        DirectoryError,
    >)
        ensures
            r is Ok <==> all_read(reading),
            match r {
                Ok(snapshot) => {
                    &&& snapshot.dir() == path@
                    &&& is_listing(snapshot.names(), read_names(reading), has_parent)
                },
                Err(e) => failed_with(reading, e@),
            },
    {
        let children = match reading {
            Ok(children) => children,
            Err(e) => {
                return Err(e);
            },
        };
        let names = match collect_names(children) {
            Ok(names) => names,
            Err(e) => {
                return Err(e);
            },
        };
        let entries = listing_of(names, has_parent);
        Ok(DirectorySnapshot { path, entries })
    }

    /// The snapshot of the directory at `path` from what a host read there.
    /// The entry `..` is listed if and only if `path` has a parent.
    ///
    /// Fails with the first failure of the reading, and only if there was one.
    pub fn construct(path: String, reading: Reading) -> (r: Result<
        DirectorySnapshot,
        DirectoryError,
    >)
        ensures
            r is Ok <==> all_read(reading),
            match r {
                Ok(snapshot) => {
                    &&& snapshot.dir() == path@
                    &&& is_listing(
                        snapshot.names(),
                        read_names(reading),
                        parent_of(path@) is Some,
                    )
                },
                Err(e) => failed_with(reading, e@),
            },
    {
        let has_parent = parent_dir(path.as_str()).is_some();
        Self::with_parent_known(path, has_parent, reading)
    }

    /// The directory's path.
    pub fn path(&self) -> (path: &String)
        ensures
            path@ == self.dir(),
    {
        &self.path
    }

    /// The entries in the order listed.
    pub fn entries(&self) -> (entries: &Vec<String>)
        ensures
            texts(entries@) == self.names(),
            is_sorted(self.names()),
    {
        proof {
            use_type_invariant(self);
        }
        &self.entries
    }
}

} // verus!
