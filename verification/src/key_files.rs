//! The files that hold sealed keys, as the library sees them: a content for
//! each path that exists.
//!
//! The library decides what is written where and what a file's content
//! means. The program around it brings the files in from disk and writes back
//! what has changed.

use crate::wire::to_vec;
use vstd::prelude::*;

verus! {

/// One file: its path and its content.
#[derive(Debug)]
pub struct KeyFile {
    pub path: String,
    pub content: Vec<u8>,
}

/// A set of files. A path that is written again gets the new content.
#[derive(Debug)]
pub struct KeyFiles {
    files: Vec<KeyFile>,
}

/// The files that the first `n` writes in `log` leave behind.
pub open spec fn files_after(log: Seq<KeyFile>, n: nat) -> Map<Seq<char>, Seq<u8>>
    decreases n,
{
    if n == 0 {
        Map::empty()
    } else {
        files_after(log, (n - 1) as nat).insert(log[n - 1].path@, log[n - 1].content@)
    }
}

impl View for KeyFiles {
    type V = Map<Seq<char>, Seq<u8>>;

    closed spec fn view(&self) -> Map<Seq<char>, Seq<u8>> {
        files_after(self.files@, self.files@.len())
    }
}

impl KeyFiles {
    /// No file at all.
    pub fn new() -> (files: Self)
        ensures
            files@ == Map::<Seq<char>, Seq<u8>>::empty(),
    {
        KeyFiles { files: Vec::new() }
    }

    /// The content of the file at `path`, if there is one.
    pub fn read(&self, path: &str) -> (r: Option<Vec<u8>>)
        ensures
            match r {
                Some(content) => self@.contains_key(path@) && self@[path@] == content@,
                None => !self@.contains_key(path@),
            },
    {
        let wanted = String::from_str(path);
        let mut found: Option<usize> = None;
        let mut i: usize = 0;
        while i < self.files.len()
            invariant
                i <= self.files@.len(),
                wanted@ == path@,
                match found {
                    Some(k) => k < i && files_after(self.files@, i as nat).contains_key(path@)
                        && files_after(self.files@, i as nat)[path@] == self.files@[k as int].content@,
                    None => !files_after(self.files@, i as nat).contains_key(path@),
                },
            decreases self.files@.len() - i,
        {
            if self.files[i].path == wanted {
                found = Some(i);
            }
            i += 1;
        }
        match found {
            Some(k) => Some(to_vec(self.files[k].content.as_slice())),
            None => None,
        }
    }

    /// Whether there is a file at `path`.
    pub fn contains(&self, path: &str) -> (b: bool)
        ensures
            b == self@.contains_key(path@),
    {
        self.read(path).is_some()
    }

    /// Writes `content` to the file at `path`, which is created if it does
    /// not exist and replaced if it does.
    pub fn write(&mut self, path: &str, content: Vec<u8>)
        ensures
            final(self)@ == old(self)@.insert(path@, content@),
    {
        let file = KeyFile { path: String::from_str(path), content };
        self.files.push(file);
        assert(files_after(self.files@, (self.files@.len() - 1) as nat) == files_after(
            old(self).files@,
            old(self).files@.len(),
        )) by {
            lemma_files_after_prefix(old(self).files@, self.files@, old(self).files@.len());
        }
    }
}

/// The first `n` writes leave the same files behind in two logs that agree
/// on them.
proof fn lemma_files_after_prefix(a: Seq<KeyFile>, b: Seq<KeyFile>, n: nat)
    requires
        n <= a.len(),
        n <= b.len(),
        forall|i: int| 0 <= i < n ==> a[i] == b[i],
    ensures
        files_after(a, n) == files_after(b, n),
    decreases n,
{
    if n > 0 {
        lemma_files_after_prefix(a, b, (n - 1) as nat);
    }
}

} // verus!
