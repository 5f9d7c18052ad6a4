//! The measurement hasher: mirrors every load the builder performs into a
//! running cryptographic digest, independent of the builder so that
//! construction and measurement can be audited separately. The digest is a
//! pure function of the creation parameters and the exact sequence of
//! (offset, access, class, measured, bytes) loads folded into it.

use vstd::prelude::*;

use core::num::NonZeroU32;

use crate::segment::{PageClass, PageInfo};
use crate::{Error, PAGE_SIZE};

verus! {

/// One load as both the builder and the hasher consult it: the destination
/// byte offset, the page class and access bits, whether the load is
/// measured, and the page bytes themselves.
pub ghost struct LoadRecord {
    pub offset: int,
    pub tcs: bool,
    pub read: bool,
    pub write: bool,
    pub execute: bool,
    pub measured: bool,
    pub data: Seq<u8>,
}

/// The record a load of these pages at this virtual page produces.
pub open spec fn record_of(vpage: int, info: PageInfo, measured: bool, data: Seq<u8>) -> LoadRecord {
    LoadRecord {
        offset: vpage * PAGE_SIZE,
        tcs: info.class is ThreadControl,
        read: info.read,
        write: info.write,
        execute: info.execute,
        measured,
        data,
    }
}

/// Holds the outside measurement digest (a SHA-256 state the sgx crate
/// folds enclave-creation and load records into); opaque to the verifier.
#[verifier::external_body]
pub struct RawHasher {
    inner: sgx::signature::Hasher<sgx::crypto::openssl::S256Digest>,
}

/// The enclave size the raw digest was started with.
pub uninterp spec fn hasher_size(h: RawHasher) -> int;

/// The save-area page count the raw digest was started with.
pub uninterp spec fn hasher_ssap(h: RawHasher) -> int;

/// The loads folded into the raw digest so far, in order.
pub uninterp spec fn hasher_updates(h: RawHasher) -> Seq<LoadRecord>;

/// The measurement value: a function of the creation parameters and the
/// folded load records, and of nothing else.
pub uninterp spec fn mrenclave_of(size: int, ssap: int, updates: Seq<LoadRecord>) -> Seq<u8>;

/// Relies on sgx::signature::Hasher::new: starts the digest with the
/// enclave-creation record built from the size and the save-area page
/// count, and nothing else.
#[verifier::external_body]
fn raw_hasher_new(size: usize, ssap: u32) -> (r: RawHasher)
    requires
        ssap > 0,
    ensures
        hasher_size(r) == size,
        hasher_ssap(r) == ssap,
        hasher_updates(r) == Seq::<LoadRecord>::empty(),
{
    RawHasher { inner: sgx::signature::Hasher::new(size, NonZeroU32::new(ssap).unwrap()) }
}

/// Relies on sgx::signature::Hasher::load: folds one add record per page
/// and, for a measured load, extend records over the page bytes; the folded
/// records are a function of the arguments alone. A buffer that is not a
/// whole number of pages is refused and nothing is folded. The offset plus
/// the buffer length must fit the machine word: the fold advances an offset
/// cursor past the last byte, and overflowing it would panic.
#[verifier::external_body]
fn raw_hasher_load(
    h: &mut RawHasher,
    pages: &Vec<u8>,
    offset: usize,
    tcs: bool,
    read: bool,
    write: bool,
    execute: bool,
    measured: bool,
) -> (r: Result<(), Error>)
    requires
        offset + pages@.len() <= usize::MAX,
    ensures
        r == (if pages@.len() % (PAGE_SIZE as nat) == 0 {
            Ok::<(), Error>(())
        } else {
            Err::<(), Error>(Error::InvalidSegmentSize)
        }),
        r is Ok ==> hasher_updates(*final(h)) == hasher_updates(*old(h)).push(
            LoadRecord { offset: offset as int, tcs, read, write, execute, measured, data: pages@ },
        ),
        r is Err ==> hasher_updates(*final(h)) == hasher_updates(*old(h)),
        r is Ok || r is Err ==> hasher_size(*final(h)) == hasher_size(*old(h)) && hasher_ssap(
            *final(h),
        ) == hasher_ssap(*old(h)),
{
    let mut f = sgx::page::Flags::empty();
    if read { f |= sgx::page::Flags::READ; }
    if write { f |= sgx::page::Flags::WRITE; }
    if execute { f |= sgx::page::Flags::EXECUTE; }
    let info = if tcs {
        sgx::page::SecInfo::from(sgx::page::Class::Tcs)
    } else {
        sgx::page::Class::Regular.info(f)
    };
    match h.inner.load(pages.as_slice(), offset, info, measured) {
        Ok(()) => Ok(()),
        Err(_) => Err(Error::InvalidSegmentSize),
    }
}

/// Relies on sgx::signature::Hasher::finish: the 32-byte measurement over
/// everything folded so far.
#[verifier::external_body]
fn raw_hasher_finish(h: RawHasher) -> (r: Vec<u8>)
    ensures
        r@ == mrenclave_of(hasher_size(h), hasher_ssap(h), hasher_updates(h)),
        r@.len() == 32,
{
    h.inner.finish().to_vec()
}

/// The measurement hasher. Driven with the same load sequence as the
/// builder, it produces the digest the hardware will compute for the real
/// enclave; the two must consult identical records in identical order.
pub struct Hasher {
    raw: RawHasher,
}

impl Hasher {
    /// The enclave size this measurement was started with.
    pub closed spec fn init_size(self) -> int {
        hasher_size(self.raw)
    }

    /// The save-area page count this measurement was started with.
    pub closed spec fn init_ssap(self) -> int {
        hasher_ssap(self.raw)
    }

    /// The loads consulted so far, in order.
    pub closed spec fn updates(self) -> Seq<LoadRecord> {
        hasher_updates(self.raw)
    }

    /// Starts a measurement for an enclave of the given size with the given
    /// per-thread exception-save-area page count.
    pub fn new(size: usize, ssap: u32) -> (r: Hasher)
        requires
            ssap > 0,
        ensures
            r.init_size() == size,
            r.init_ssap() == ssap,
            r.updates() == Seq::<LoadRecord>::empty(),
    {
        Hasher { raw: raw_hasher_new(size, ssap) }
    }

    /// Folds one load into the digest: succeeds exactly on whole-page
    /// buffers, appending the load's record; a partial page folds nothing.
    pub fn load(&mut self, pages: &Vec<u8>, vpage: usize, info: PageInfo, measured: bool) -> (r:
        Result<(), Error>)
        requires
            old(self).init_size() >= 0,
            vpage * PAGE_SIZE + pages@.len() <= usize::MAX,
        ensures
            final(self).init_size() == old(self).init_size(),
            final(self).init_ssap() == old(self).init_ssap(),
            pages@.len() % (PAGE_SIZE as nat) == 0 ==> r == Ok::<(), Error>(())
                && final(self).updates() == old(self).updates().push(
                record_of(vpage as int, info, measured, pages@),
            ),
            pages@.len() % (PAGE_SIZE as nat) != 0 ==> r == Err::<(), Error>(
                Error::InvalidSegmentSize,
            ) && final(self).updates() == old(self).updates(),
    {
        let offset: usize = vpage * PAGE_SIZE;
        let tcs = match info.class {
            PageClass::ThreadControl => true,
            PageClass::Regular => false,
        };
        raw_hasher_load(
            &mut self.raw,
            pages,
            offset,
            tcs,
            info.read,
            info.write,
            info.execute,
            measured,
        )
    }

    /// Produces the measurement: the digest over the creation parameters
    /// and every consulted load, in order.
    pub fn finish(self) -> (r: Vec<u8>)
        ensures
            r@ == mrenclave_of(self.init_size(), self.init_ssap(), self.updates()),
            r@.len() == 32,
    {
        raw_hasher_finish(self.raw)
    }
}

/// Measurement is deterministic: replaying the same creation parameters and
/// the same load sequence yields the same digest bit for bit.
pub proof fn lemma_measurement_deterministic(
    size1: int,
    ssap1: int,
    u1: Seq<LoadRecord>,
    size2: int,
    ssap2: int,
    u2: Seq<LoadRecord>,
)
    requires
        size1 == size2,
        ssap1 == ssap2,
        u1 == u2,
    ensures
        mrenclave_of(size1, ssap1, u1) == mrenclave_of(size2, ssap2, u2),
{
}

/// Two load sequences that place some load at different offsets are
/// distinct measurement inputs: the digest is computed over different
/// record sequences. (That distinct inputs give distinct digests is the
/// hash's collision resistance, which no proof here can supply.)
pub proof fn lemma_offset_difference_distinguishes(
    u1: Seq<LoadRecord>,
    u2: Seq<LoadRecord>,
    i: int,
)
    requires
        0 <= i < u1.len(),
        0 <= i < u2.len(),
        u1[i].offset != u2[i].offset,
    ensures
        u1 != u2,
{
    assert(u1[i] != u2[i]);
}

} // verus!
