//! Fixed-capacity byte memory holding the program.
use vstd::prelude::*;

verus! {

/// Number of bytes in memory.
pub const MEM_SIZE: usize = 32;

/// Failures of the memory operations.
#[derive(Clone, Copy, Debug, PartialEq, Eq, Structural)]
pub enum MemoryError {
    /// An index at or past the end of memory was read or written.
    OutOfRange,
    /// A bulk load was given a buffer whose length is not `MEM_SIZE`.
    MalformedLoad,
}

/// A memory of exactly `MEM_SIZE` bytes. Its length never changes.
pub struct Memory {
    cells: [u8; MEM_SIZE],
}

impl View for Memory {
    type V = Seq<u8>;

    closed spec fn view(&self) -> Seq<u8> {
        self.cells@
    }
}

impl Memory {
    /// Every memory holds exactly `MEM_SIZE` bytes.
    pub broadcast proof fn lemma_len(m: &Memory)
        ensures
            #[trigger] m@.len() == MEM_SIZE,
    {
        vstd::array::array_len_matches_n(&m.cells);
    }

    /// A memory whose cells are all zero (all NOP).
    pub fn new() -> (r: Memory)
        ensures
            r@ == Seq::new(MEM_SIZE as nat, |_i: int| 0u8),
    {
        let r = Memory { cells: [0u8; MEM_SIZE] };
        proof {
            vstd::array::array_len_matches_n(&r.cells);
        }
        assert(r@ =~= Seq::new(MEM_SIZE as nat, |_i: int| 0u8));
        r
    }

    /// Replaces the whole contents with `values`, which must hold exactly
    /// `MEM_SIZE` bytes; otherwise the contents are left as they were.
    pub fn load(&mut self, values: &[u8]) -> (r: Result<(), MemoryError>)
        ensures
            values@.len() == MEM_SIZE ==> r is Ok && final(self)@ == values@,
            values@.len() != MEM_SIZE ==> r == Err::<(), MemoryError>(MemoryError::MalformedLoad)
                && final(self)@ == old(self)@,
    {
        if values.len() != MEM_SIZE {
            return Err(MemoryError::MalformedLoad);
        }
        let mut index: usize = 0;
        while index < MEM_SIZE
            invariant
                values@.len() == MEM_SIZE,
                self.cells@.len() == MEM_SIZE,
                0 <= index <= MEM_SIZE,
                forall|j: int| 0 <= j < index ==> self.cells@[j] == values@[j],
            decreases MEM_SIZE - index,
        {
            self.cells[index] = values[index];
            index = index + 1;
        }
        assert(self@ =~= values@);
        Ok(())
    }

    /// Stores `value` at `index`.
    pub fn write(&mut self, index: usize, value: u8) -> (r: Result<(), MemoryError>)
        ensures
            index < MEM_SIZE ==> r is Ok && final(self)@ == old(self)@.update(index as int, value),
            index >= MEM_SIZE ==> r == Err::<(), MemoryError>(MemoryError::OutOfRange)
                && final(self)@ == old(self)@,
    {
        if index >= MEM_SIZE {
            return Err(MemoryError::OutOfRange);
        }
        proof {
            vstd::array::array_len_matches_n(&self.cells);
        }
        self.cells[index] = value;
        Ok(())
    }

    /// The byte at `index`.
    pub fn read(&self, index: usize) -> (r: Result<u8, MemoryError>)
        ensures
            index < MEM_SIZE ==> r == Ok::<u8, MemoryError>(self@[index as int]),
            index >= MEM_SIZE ==> r == Err::<u8, MemoryError>(MemoryError::OutOfRange),
    {
        if index >= MEM_SIZE {
            return Err(MemoryError::OutOfRange);
        }
        proof {
            vstd::array::array_len_matches_n(&self.cells);
        }
        Ok(self.cells[index])
    }
}

} // verus!
