//! What the host says about its file system, as plain values.
use vstd::prelude::*;

use crate::path::{same_bytes, UnixPath};

verus! {

/// What the host found at a path.
#[derive(Debug)]
pub enum Lookup {
    /// Nothing that could be resolved, for this reason.
    Failed(String),
    /// Something other than a directory, at this canonical path.
    Other(UnixPath),
    /// A directory, at this canonical path.
    Directory(UnixPath),
}

/// What the host found at a path, as a mathematical value.
pub enum Found {
    Failed(Seq<char>),
    Other(Seq<u8>),
    Directory(Seq<u8>),
}

impl View for Lookup {
    type V = Found;

    open spec fn view(&self) -> Found {
        match self {
            Lookup::Failed(reason) => Found::Failed(reason@),
            Lookup::Other(path) => Found::Other(path@),
            Lookup::Directory(path) => Found::Directory(path@),
        }
    }
}

/// What the host found at the paths that were looked at.
#[derive(Debug)]
pub struct HostPaths {
    pub seen: Vec<(UnixPath, Lookup)>,
}

impl View for HostPaths {
    type V = Seq<(Seq<u8>, Found)>;

    open spec fn view(&self) -> Seq<(Seq<u8>, Found)> {
        Seq::new(self.seen@.len(), |i: int| (self.seen@[i].0@, self.seen@[i].1@))
    }
}

/// What was found at `path`, if it was looked at.
pub open spec fn found_at(seen: Seq<(Seq<u8>, Found)>, path: Seq<u8>) -> Option<Found>
    decreases seen.len(),
{
    if seen.len() == 0 {
        None
    } else if seen[0].0 == path {
        Some(seen[0].1)
    } else {
        found_at(seen.skip(1), path)
    }
}

impl HostPaths {
    /// Nothing looked at yet.
    pub fn new() -> (h: Self)
        ensures
            h@ == Seq::<(Seq<u8>, Found)>::empty(),
    {
        let h = HostPaths { seen: Vec::new() };
        assert(h@ == Seq::<(Seq<u8>, Found)>::empty());
        h
    }

    /// Notes what was found at `path`.
    pub fn record(&mut self, path: UnixPath, found: Lookup)
        ensures
            final(self)@ == old(self)@.push((path@, found@)),
    {
        let ghost entry = (path@, found@);
        let ghost before = self@;
        self.seen.push((path, found));
        assert(self@ == before.push(entry));
    }

    /// What was found at `path`, if it was looked at.
    pub fn get(&self, path: &UnixPath) -> (r: Option<&Lookup>)
        ensures
            r is Some <==> found_at(self@, path@) is Some,
            r is Some ==> r->0@ == found_at(self@, path@)->0,
    {
        let ghost all = self@;
        let mut i: usize = 0;
        assert(all.skip(0) == all);
        while i < self.seen.len()
            invariant
                i <= self.seen@.len(),
                all == self@,
                found_at(all, path@) == found_at(all.skip(i as int), path@),
            decreases self.seen.len() - i,
        {
            assert(all.skip(i as int)[0] == (self.seen@[i as int].0@, self.seen@[i as int].1@));
            assert(all.skip(i as int).skip(1) == all.skip(i + 1));
            if same_bytes(self.seen[i].0.bytes.as_slice(), path.bytes.as_slice()) {
                return Some(&self.seen[i].1);
            }
            i += 1;
        }
        None
    }
}

/// What is noted at a path is found there, unless something was noted there
/// before; other paths are not affected.
pub proof fn law_record_then_find(
    seen: Seq<(Seq<u8>, Found)>,
    path: Seq<u8>,
    found: Found,
    other: Seq<u8>,
)
    ensures
        found_at(seen, path) is None ==> found_at(seen.push((path, found)), path) == Some(found),
        found_at(seen, path) is Some ==> found_at(seen.push((path, found)), path) == found_at(
            seen,
            path,
        ),
        other != path ==> found_at(seen.push((path, found)), other) == found_at(seen, other),
    decreases seen.len(),
{
    let new = seen.push((path, found));
    if seen.len() == 0 {
        assert(new[0] == (path, found));
        assert(new.skip(1) == seen);
    } else {
        law_record_then_find(seen.skip(1), path, found, other);
        assert(new[0] == seen[0]);
        assert(new.skip(1) == seen.skip(1).push((path, found)));
    }
}

/// The error of an operation on files.
#[derive(Debug)]
pub enum FileError {
    /// There is no such file.
    NotFound,
    /// Anything else.
    Other(String),
}

/// Turns a "not found" error into `None`.
pub fn if_exists<T>(result: Result<T, FileError>) -> (r: Result<Option<T>, FileError>)
    ensures
        r == (match result {
            Ok(value) => Ok(Some(value)),
            Err(FileError::NotFound) => Ok(None),
            Err(e) => Err(e),
        }),
{
    match result {
        Ok(value) => Ok(Some(value)),
        Err(FileError::NotFound) => Ok(None),
        Err(e) => Err(e),
    }
}

} // verus!
