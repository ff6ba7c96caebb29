use vstd::bytes::{spec_u64_from_le_bytes, u64_from_le_bytes};
use vstd::prelude::*;
use vstd::slice::slice_subrange;

verus! {

/// Why a read of the monitored process's memory produced no value.
#[derive(Debug, Clone, Copy, PartialEq, Eq, Structural)]
pub enum ReadError {
    /// The memory could not be read: unmapped address, process gone, no permission.
    ReadFailure,
    /// What was read does not have the shape that the layout demands.
    StructuralMismatch,
}

/// Offset of the 32-bit element count from the start of a managed array.
pub const COUNT_OFFSET: u64 = 0x18;

/// Offset of the first element slot from the start of a managed array.
pub const DATA_OFFSET: u64 = 0x20;

/// The most elements that a bulk read decodes, whatever the count field says.
pub const MAX_ELEMENTS: usize = 2048;

/// Size in bytes of one element slot: a 64-bit address.
pub const ELEMENT_SIZE: usize = 8;

/// The number of elements that a bulk read of an array with `count` elements decodes.
pub open spec fn capped_count(count: nat) -> nat {
    if count < MAX_ELEMENTS as nat {
        count
    } else {
        MAX_ELEMENTS as nat
    }
}

/// The `n` little-endian 64-bit values laid out one after another at the start of `b`.
pub open spec fn decoded_elements(b: Seq<u8>, n: nat) -> Seq<u64> {
    Seq::new(n, |i: int| spec_u64_from_le_bytes(b.subrange(8 * i, 8 * i + 8)))
}

/// The values of the `Ok` entries of `s`, in order.
pub open spec fn ok_values<U, E>(s: Seq<Result<U, E>>) -> Seq<U>
    decreases s.len(),
{
    if s.len() == 0 {
        Seq::empty()
    } else {
        let prefix = ok_values(s.drop_last());
        match s.last() {
            Ok(v) => prefix.push(v),
            Err(_) => prefix,
        }
    }
}

/// Whether every entry of `s` is `Ok`.
pub open spec fn all_ok<U, E>(s: Seq<Result<U, E>>) -> bool {
    forall|i: int| 0 <= i < s.len() ==> (#[trigger] s[i]).is_ok()
}

/// A handle on a managed array in the monitored process: a 32-bit count at
/// `COUNT_OFFSET`, then 64-bit element slots from `DATA_OFFSET` on.
/// It holds no data of its own: the bytes are read through it.
#[derive(Debug, Clone, Copy, PartialEq, Eq, Structural)]
pub struct CSharpArray {
    pub address: u64,
}

impl CSharpArray {
    pub fn new(address: u64) -> (r: Self)
        ensures
            r.address == address,
    {
        CSharpArray { address }
    }

    /// Where the count field lies, or `None` past the end of the address space.
    pub fn count_address(&self) -> (r: Option<u64>)
        ensures
            r == (if self.address + COUNT_OFFSET <= u64::MAX {
                Some((self.address + COUNT_OFFSET) as u64)
            } else {
                None
            }),
    {
        self.address.checked_add(COUNT_OFFSET)
    }

    /// Where the first element slot lies, or `None` past the end of the address space.
    pub fn data_address(&self) -> (r: Option<u64>)
        ensures
            r == (if self.address + DATA_OFFSET <= u64::MAX {
                Some((self.address + DATA_OFFSET) as u64)
            } else {
                None
            }),
    {
        self.address.checked_add(DATA_OFFSET)
    }

    /// Where element slot `index` lies, or `None` past the end of the address space.
    pub fn element_address(&self, index: usize) -> (r: Option<u64>)
        ensures
            r == (if self.address + DATA_OFFSET + index * ELEMENT_SIZE <= u64::MAX {
                Some((self.address + DATA_OFFSET + index * ELEMENT_SIZE) as u64)
            } else {
                None
            }),
    {
        match self.data_address() {
            None => None,
            Some(data) => {
                let idx = index as u64;
                if idx > (u64::MAX - data) / 8 {
                    None
                } else {
                    data.checked_add(idx * 8)
                }
            },
        }
    }

    /// The number of elements, from the result of reading the 32-bit count field.
    pub fn count(&self, raw: Result<u32, ReadError>) -> (r: Result<usize, ReadError>)
        ensures
            match raw {
                Ok(c) => r == Ok::<usize, ReadError>(c as usize),
                Err(e) => r == Err::<usize, ReadError>(e),
            },
    {
        match raw {
            Ok(c) => Ok(c as usize),
            Err(e) => Err(e),
        }
    }

    /// How many elements a bulk read of an array of `count` elements decodes:
    /// never more than `MAX_ELEMENTS`, whatever a corrupt count field says.
    pub fn read_len(count: usize) -> (r: usize)
        ensures
            r == capped_count(count as nat),
            r <= MAX_ELEMENTS,
    {
        if count < MAX_ELEMENTS {
            count
        } else {
            MAX_ELEMENTS
        }
    }

    /// Decodes a bulk read of the element slots of an array of `count` elements.
    /// `bytes` is the result of reading `read_len(count) * ELEMENT_SIZE` bytes
    /// from `data_address()`. The result is all or nothing: exactly
    /// `read_len(count)` elements, or an error.
    pub fn read(&self, count: usize, bytes: Result<Vec<u8>, ReadError>) -> (r: Result<Vec<u64>, ReadError>)
        ensures
            match bytes {
                Err(e) => r == Err::<Vec<u64>, ReadError>(e),
                Ok(b) => if b@.len() == 8 * capped_count(count as nat) {
                    &&& r.is_ok()
                    &&& r.unwrap()@ == decoded_elements(b@, capped_count(count as nat))
                } else {
                    r == Err::<Vec<u64>, ReadError>(ReadError::StructuralMismatch)
                },
            },
            r.is_ok() ==> r.unwrap()@.len() == capped_count(count as nat),
    {
        let n = Self::read_len(count);
        match bytes {
            Err(e) => Err(e),
            Ok(b) => {
                if b.len() != 8 * n {
                    return Err(ReadError::StructuralMismatch);
                }
                let mut out: Vec<u64> = Vec::with_capacity(n);
                let mut i: usize = 0;
                while i < n
                    invariant
                        n == capped_count(count as nat),
                        n <= MAX_ELEMENTS,
                        b@.len() == 8 * n,
                        i <= n,
                        out@ =~= decoded_elements(b@, i as nat),
                    decreases n - i,
                {
                    let chunk = slice_subrange(b.as_slice(), 8 * i, 8 * i + 8);
                    let v = u64_from_le_bytes(chunk);
                    out.push(v);
                    i = i + 1;
                    assert(out@ =~= decoded_elements(b@, i as nat));
                }
                Ok(out)
            },
        }
    }

    /// Resolves each element as the address of a record: `resolved` holds, in
    /// order, the result of reading the record behind each element. Strict: one
    /// failed resolution fails the whole, with the first error.
    pub fn read_class<U: Copy>(&self, resolved: &Vec<Result<U, ReadError>>) -> (r: Result<Vec<U>, ReadError>)
        ensures
            r.is_ok() == all_ok(resolved@),
            r.is_ok() ==> r.unwrap()@ == ok_values(resolved@),
            r.is_ok() ==> r.unwrap()@.len() == resolved@.len(),
            match r {
                Err(e) => exists|i: int|
                    0 <= i < resolved@.len() && resolved@[i] == Err::<U, ReadError>(e)
                        && all_ok(resolved@.subrange(0, i)),
                Ok(_) => true,
            },
    {
        let mut out: Vec<U> = Vec::new();
        let mut i: usize = 0;
        while i < resolved.len()
            invariant
                i <= resolved@.len(),
                all_ok(resolved@.subrange(0, i as int)),
                out@ == ok_values(resolved@.subrange(0, i as int)),
                out@.len() == i,
            decreases resolved@.len() - i,
        {
            proof {
                assert(resolved@.subrange(0, i + 1).drop_last() =~= resolved@.subrange(0, i as int));
            }
            match resolved[i] {
                Ok(v) => {
                    out.push(v);
                },
                Err(e) => {
                    return Err(e);
                },
            }
            i = i + 1;
            assert(all_ok(resolved@.subrange(0, i as int))) by {
                assert forall|j: int| 0 <= j < i implies (#[trigger] resolved@.subrange(0, i as int)[j]).is_ok() by {
                    if j < i - 1 {
                        assert(resolved@.subrange(0, i - 1)[j] == resolved@.subrange(0, i as int)[j]);
                    }
                }
            }
        }
        assert(resolved@.subrange(0, i as int) =~= resolved@);
        Ok(out)
    }

    /// The elements that were read one by one: `reads` holds the result of
    /// reading each slot in order; the failed ones are skipped.
    pub fn iter(&self, reads: &Vec<Result<u64, ReadError>>) -> (r: Vec<u64>)
        ensures
            r@ == ok_values(reads@),
    {
        let mut out: Vec<u64> = Vec::new();
        let mut i: usize = 0;
        while i < reads.len()
            invariant
                i <= reads@.len(),
                out@ == ok_values(reads@.subrange(0, i as int)),
            decreases reads@.len() - i,
        {
            proof {
                assert(reads@.subrange(0, i + 1).drop_last() =~= reads@.subrange(0, i as int));
            }
            match reads[i] {
                Ok(v) => out.push(v),
                Err(_) => {},
            }
            i = i + 1;
        }
        assert(reads@.subrange(0, i as int) =~= reads@);
        out
    }
}

} // verus!
