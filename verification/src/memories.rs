//! Recalled key/value "memory" snippets that a conversation log can pull
//! in from side files.

use vstd::prelude::*;

verus! {

/// One remembered key/value pair.
#[derive(Debug)]
pub struct Memory {
    pub key: String,
    pub value: String,
}

impl Clone for Memory {
    fn clone(&self) -> (r: Self)
        ensures
            r == *self,
    {
        Memory { key: self.key.clone(), value: self.value.clone() }
    }
}

/// A file's worth of memories.
#[derive(Debug)]
pub struct MemoryFile {
    pub memories: Vec<Memory>,
}

impl Clone for MemoryFile {
    fn clone(&self) -> (r: Self)
        ensures
            r.memories@ == self.memories@,
    {
        let mut memories: Vec<Memory> = Vec::new();
        let mut i: usize = 0;
        while i < self.memories.len()
            invariant
                i <= self.memories.len(),
                memories@ =~= self.memories@.take(i as int),
            decreases self.memories.len() - i,
        {
            memories.push(self.memories[i].clone());
            proof {
                assert(self.memories@.take(i + 1) =~= self.memories@.take(i as int).push(
                    self.memories@[i as int],
                ));
            }
            i += 1;
        }
        proof {
            assert(self.memories@.take(self.memories@.len() as int) =~= self.memories@);
        }
        MemoryFile { memories }
    }
}

impl MemoryFile {
    /// A memory file with no entries.
    pub fn new_empty() -> (r: Self)
        ensures
            r.memories@.len() == 0,
    {
        MemoryFile { memories: Vec::new() }
    }
}

} // verus!
