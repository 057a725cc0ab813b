//! Bounds-checked linear storage for the virtual machine.

use vstd::prelude::*;

verus! {

/// A failed memory access.
#[derive(Debug, Clone, Copy, PartialEq, Eq, Structural)]
pub enum MemoryError {
    /// The address lies outside `[0, size)`.
    OutOfBounds { address: usize, size: usize },
}

/// A flat, zero-initialised, fixed-length store of signed 32-bit cells.
pub struct Memory {
    pub data: Vec<i32>,
}

impl View for Memory {
    type V = Seq<i32>;

    open spec fn view(&self) -> Seq<i32> {
        self.data@
    }
}

/// What reading `address` from cells `m` yields.
pub open spec fn read_result(m: Seq<i32>, address: usize) -> Result<i32, MemoryError> {
    if address < m.len() {
        Ok(m[address as int])
    } else {
        Err(MemoryError::OutOfBounds { address, size: m.len() as usize })
    }
}

/// What writing `address` in cells `m` reports.
pub open spec fn write_result(m: Seq<i32>, address: usize) -> Result<(), MemoryError> {
    if address < m.len() {
        Ok(())
    } else {
        Err(MemoryError::OutOfBounds { address, size: m.len() as usize })
    }
}

/// The cells after writing `value` at `address`: one cell changes when the
/// address is in range, none otherwise.
pub open spec fn after_write(m: Seq<i32>, address: usize, value: i32) -> Seq<i32> {
    if address < m.len() {
        m.update(address as int, value)
    } else {
        m
    }
}

/// A fresh memory reads zero at every address in range.
pub proof fn lemma_new_reads_zero(size: usize, m: Seq<i32>, a: usize)
    requires
        m.len() == size,
        forall|i: int| 0 <= i < size ==> #[trigger] m[i] == 0,
        a < size,
    ensures
        read_result(m, a) == Ok::<i32, MemoryError>(0),
{
}

/// Writing `value` at an address in range and reading it back yields `value`;
/// every other cell reads as before.
pub proof fn lemma_write_then_read(m: Seq<i32>, a: usize, value: i32, b: usize)
    requires
        a < m.len(),
    ensures
        write_result(m, a) == Ok::<(), MemoryError>(()),
        read_result(after_write(m, a, value), a) == Ok::<i32, MemoryError>(value),
        b != a ==> read_result(after_write(m, a, value), b) == read_result(m, b),
{
}

/// An address at or past the end faults with `OutOfBounds` on both reading and
/// writing, and a faulting write changes nothing.
pub proof fn lemma_out_of_bounds(m: Seq<i32>, a: usize, value: i32)
    requires
        a >= m.len(),
    ensures
        read_result(m, a) == Err::<i32, MemoryError>(
            MemoryError::OutOfBounds { address: a, size: m.len() as usize },
        ),
        write_result(m, a) == Err::<(), MemoryError>(
            MemoryError::OutOfBounds { address: a, size: m.len() as usize },
        ),
        after_write(m, a, value) == m,
{
}

impl Memory {
    /// The number of cells fits in `usize`.
    pub proof fn lemma_size_fits(&self)
        ensures
            self@.len() <= usize::MAX,
    {
        assert(self.data.len() == self.data@.len());
    }

    /// Creates a memory of `size` cells, all zero.
    pub fn new(size: usize) -> (m: Self)
        ensures
            m@.len() == size,
            forall|a: int| 0 <= a < size ==> #[trigger] m@[a] == 0,
    {
        Memory { data: vec![0; size] }
    }

    /// The number of cells.
    pub fn size(&self) -> (n: usize)
        ensures
            n == self@.len(),
    {
        self.data.len()
    }

    /// Reads the cell at `address`.
    pub fn read(&self, address: usize) -> (r: Result<i32, MemoryError>)
        ensures
            r == read_result(self@, address),
    {
        if address < self.data.len() {
            Ok(self.data[address])
        } else {
            Err(MemoryError::OutOfBounds { address, size: self.data.len() })
        }
    }

    /// Stores `value` at `address`; on an out-of-range address nothing changes.
    pub fn write(&mut self, address: usize, value: i32) -> (r: Result<(), MemoryError>)
        ensures
            r == write_result(old(self)@, address),
            final(self)@ == after_write(old(self)@, address, value),
    {
        if address < self.data.len() {
            self.data.set(address, value);
            Ok(())
        } else {
            Err(MemoryError::OutOfBounds { address, size: self.data.len() })
        }
    }
}

} // verus!
