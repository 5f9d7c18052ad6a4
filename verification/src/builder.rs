//! The enclave builder: accumulates segments into a not-yet-runnable
//! enclave as an ordered plan of hardware add-page operations, and pairs
//! the finished plan with the signed structure. It tracks no measurement
//! state: the hasher mirrors it, and the two must consult identical
//! records in identical order.

use vstd::prelude::*;

use crate::measure::LoadRecord;
use crate::segment::PageInfo;
use crate::{Error, PAGE_SIZE};

verus! {

/// Bit 0 of the add-page descriptor's flags word: the load contributes to
/// the measurement.
pub const ADD_FLAG_MEASURE: u64 = 1;

/// One hardware add-page operation, laid out as the host kernel's
/// descriptor expects: source bytes, destination byte offset, byte length,
/// the page-class/permission descriptor, a flags word whose bit 0 marks a
/// measured load, and a reserved result counter.
#[derive(Clone, Debug)]
pub struct AddPages {
    /// Destination byte offset within the enclave.
    pub offset: usize,
    /// Byte length of the source.
    pub length: usize,
    /// The page-class/permission descriptor the kernel reads.
    pub info: PageInfo,
    /// Whether this load contributes to the measurement.
    pub measured: bool,
    /// The descriptor's flags word; bit 0 mirrors `measured`.
    pub flags: u64,
    /// Reserved result counter, zero until the hardware call runs.
    pub count: u64,
    /// The source page bytes.
    pub data: Vec<u8>,
}

impl AddPages {
    /// Builds the descriptor for one load at a byte offset.
    pub fn new(data: Vec<u8>, offset: usize, info: PageInfo, measured: bool) -> (r: AddPages)
        ensures
            r.offset == offset,
            r.length == data@.len(),
            r.info == info,
            r.measured == measured,
            r.flags == (if measured {
                ADD_FLAG_MEASURE as int
            } else {
                0int
            }),
            r.count == 0,
            r.data == data,
    {
        let length = data.len();
        AddPages {
            offset,
            length,
            info,
            measured,
            flags: if measured {
                ADD_FLAG_MEASURE
            } else {
                0
            },
            count: 0,
            data,
        }
    }

    /// The reserved result counter.
    pub fn count(&self) -> (r: u64)
        ensures
            r == self.count,
    {
        self.count
    }
}

/// The records a sequence of add-page operations consults, in order: what
/// the hasher must fold to measure exactly this construction.
pub open spec fn add_records(adds: Seq<AddPages>) -> Seq<LoadRecord> {
    Seq::new(
        adds.len(),
        |i: int|
            LoadRecord {
                offset: adds[i].offset as int,
                tcs: adds[i].info.class is ThreadControl,
                read: adds[i].info.read,
                write: adds[i].info.write,
                execute: adds[i].info.execute,
                measured: adds[i].measured,
                data: adds[i].data@,
            },
    )
}

/// A laid-out operation sequence: every operation is whole pages, and each
/// one ends at or before the next begins — no two touch the same page.
pub open spec fn adds_laid_out(adds: Seq<AddPages>) -> bool {
    &&& forall|m: int|
        0 <= m < adds.len() ==> (#[trigger] adds[m]).length as int % (PAGE_SIZE as int) == 0
    &&& forall|m: int|
        0 <= m < adds.len() - 1 ==> adds[m].offset + #[trigger] adds[m].length <= adds[m
            + 1].offset
}

/// The not-yet-runnable enclave: creation parameters plus the ordered
/// add-page operations issued so far.
pub struct Builder {
    /// Total enclave size in bytes: two to the `size_bits`.
    pub size: usize,
    pub size_bits: u32,
    /// Exception-save-area pages per thread; never zero.
    pub ssap: u32,
    /// Enclave-wide signing parameters, carried opaquely to the signer and
    /// the creation call.
    pub params: sgx::parameters::Parameters,
    /// The add-page operations issued so far, in order.
    pub adds: Vec<AddPages>,
}

impl Builder {
    /// Opens a new enclave of two to the `size_bits` bytes: the total size
    /// is a power of two by construction. The save-area page count must
    /// not be zero.
    pub fn new(size_bits: u32, ssap: u32, params: sgx::parameters::Parameters) -> (r: Builder)
        requires
            size_bits < usize::BITS,
            ssap > 0,
        ensures
            r.size == (1usize << size_bits),
            r.size_bits == size_bits,
            r.ssap == ssap,
            r.params == params,
            r.adds@ =~= Seq::<AddPages>::empty(),
    {
        Builder { size: 1usize << size_bits, size_bits, ssap, params, adds: Vec::new() }
    }

    /// Issues one add-page operation for whole pages at a virtual page:
    /// appends exactly one descriptor, whose record is the same one the
    /// hasher folds for the same arguments. A partial page is refused and
    /// nothing is issued.
    pub fn load(&mut self, pages: Vec<u8>, vpage: usize, info: PageInfo, measured: bool) -> (r:
        Result<(), Error>)
        requires
            vpage * PAGE_SIZE <= usize::MAX,
        ensures
            final(self).size == old(self).size,
            final(self).size_bits == old(self).size_bits,
            final(self).ssap == old(self).ssap,
            final(self).params == old(self).params,
            pages@.len() % (PAGE_SIZE as nat) != 0 ==> r == Err::<(), Error>(
                Error::InvalidSegmentSize,
            ) && final(self).adds@ == old(self).adds@,
            pages@.len() % (PAGE_SIZE as nat) == 0 ==> r == Ok::<(), Error>(())
                && final(self).adds@.len() == old(self).adds@.len() + 1
                && final(self).adds@.drop_last() == old(self).adds@
                && final(self).adds@.last().length == pages@.len()
                && final(self).adds@.last().offset == vpage * PAGE_SIZE
                && final(self).adds@.last().info == info
                && final(self).adds@.last().measured == measured
                && final(self).adds@.last().data@ == pages@
                && add_records(final(self).adds@) == add_records(old(self).adds@).push(
                crate::measure::record_of(vpage as int, info, measured, pages@),
            ),
    {
        if pages.len() % PAGE_SIZE != 0 {
            return Err(Error::InvalidSegmentSize);
        }
        let offset: usize = vpage * PAGE_SIZE;
        let op = AddPages::new(pages, offset, info, measured);
        self.adds.push(op);
        proof {
            assert(self.adds@.drop_last() =~= old(self).adds@);
            assert(add_records(self.adds@) =~= add_records(old(self).adds@).push(
                crate::measure::record_of(vpage as int, info, measured, pages@),
            ));
        }
        Ok(())
    }
}

/// A finished construction: everything the hardware control surface needs,
/// in order — create the enclave from the size, save-area count and
/// parameters; add each page operation; initialize with the signed
/// structure. After the initialize succeeds the enclave is runnable and
/// immutable; after it fails the whole construction is abandoned.
pub struct EnclavePlan {
    /// Total enclave size in bytes, a power of two.
    pub size: usize,
    pub size_bits: u32,
    /// Exception-save-area pages per thread.
    pub ssap: u32,
    /// Enclave-wide signing parameters for the creation call.
    pub params: sgx::parameters::Parameters,
    /// The add-page operations, in issue order.
    pub adds: Vec<AddPages>,
    /// The signed structure the initialize call takes.
    pub signature: sgx::signature::Signature,
    /// The 32-byte measurement the signature binds.
    pub mrenclave: Vec<u8>,
}

impl Builder {
    /// The point of no return: pairs the accumulated operations with the
    /// signed structure. The builder is consumed; no page can be added
    /// after this.
    pub fn build(self, signature: sgx::signature::Signature, mrenclave: Vec<u8>) -> (r:
        EnclavePlan)
        ensures
            r.size == self.size,
            r.size_bits == self.size_bits,
            r.ssap == self.ssap,
            r.params == self.params,
            r.adds == self.adds,
            r.signature == signature,
            r.mrenclave == mrenclave,
    {
        EnclavePlan {
            size: self.size,
            size_bits: self.size_bits,
            ssap: self.ssap,
            params: self.params,
            adds: self.adds,
            signature,
            mrenclave,
        }
    }
}

} // verus!
