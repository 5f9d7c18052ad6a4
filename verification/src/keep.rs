//! Orchestration: from a runtime image and a payload image to a finished,
//! signed construction plan, and from the plan to threads.
//!
//! The runtime image loads unrelocated; the payload relocates into the slot
//! the runtime reserves for it. All segments are sorted by virtual page and
//! checked pairwise for overlap; the builder and the measurement hasher are
//! then driven over the same segments by one loop, so the two consult
//! identical records in identical order by construction.

use vstd::prelude::*;

use vstd::arithmetic::div_mod::lemma_fundamental_div_mod;
use vstd::seq_lib::group_to_multiset_ensures;

use crate::block::Block;
use crate::builder::{add_records, adds_laid_out, AddPages, Builder, EnclavePlan};
use crate::measure::{mrenclave_of, Hasher};
use crate::segment::{
    check_overlap, header_fits, lemma_overlap_witness, lemma_sorted_arrangement_excludes_clash,
    loadable_of, seg_matches, segs_clash, segs_nonoverlapping, segs_sorted, segs_touch,
    sort_segments, translate, PageClass, ProgramHeader, Segment, PT_LOAD,
};
use crate::sign::{parameters_default, sign_measurement};
use crate::thread::{Entry, Registers, Thread};
use crate::{Error, PAGE_SIZE};

verus! {

/// An executable image, as the out-of-scope parser hands it over: the raw
/// file bytes and its program headers.
pub struct Image {
    pub bytes: Vec<u8>,
    pub phdrs: Vec<ProgramHeader>,
}

/// The lowest virtual address a loadable-header sequence touches.
pub open spec fn region_start(phdrs: Seq<ProgramHeader>) -> int
    decreases phdrs.len(),
{
    if phdrs.len() == 0 {
        0
    } else if phdrs.len() == 1 {
        phdrs[0].virt_addr as int
    } else {
        let rest = region_start(phdrs.drop_last());
        if phdrs.last().virt_addr < rest {
            phdrs.last().virt_addr as int
        } else {
            rest
        }
    }
}

/// The highest virtual address past a loadable-header sequence.
pub open spec fn region_end(phdrs: Seq<ProgramHeader>) -> int
    decreases phdrs.len(),
{
    if phdrs.len() == 0 {
        0
    } else if phdrs.len() == 1 {
        phdrs[0].virt_addr + phdrs[0].mem_size
    } else {
        let rest = region_end(phdrs.drop_last());
        if phdrs.last().virt_addr + phdrs.last().mem_size > rest {
            phdrs.last().virt_addr + phdrs.last().mem_size
        } else {
            rest
        }
    }
}

/// The size in bytes of the region an image's loadable headers span.
pub open spec fn region_count(phdrs: Seq<ProgramHeader>) -> int {
    region_end(loadable_of(phdrs)) - region_start(loadable_of(phdrs))
}

/// Computes the span of an image's loadable headers: lowest start, highest
/// end. Returns (0, 0) for an image with no loadable header.
fn region_span(phdrs: &Vec<ProgramHeader>) -> (r: (usize, usize))
    requires
        forall|k: int|
            0 <= k < phdrs@.len() && phdrs@[k].p_type == PT_LOAD
                ==> (#[trigger] phdrs@[k]).virt_addr + phdrs@[k].mem_size <= usize::MAX,
    ensures
        r.1 - r.0 == region_count(phdrs@),
        r.0 <= r.1,
{
    let mut start: usize = 0;
    let mut end: usize = 0;
    let mut count: usize = 0;
    let mut i: usize = 0;
    while i < phdrs.len()
        invariant
            i <= phdrs@.len(),
            forall|k: int|
                0 <= k < phdrs@.len() && phdrs@[k].p_type == PT_LOAD
                    ==> (#[trigger] phdrs@[k]).virt_addr + phdrs@[k].mem_size <= usize::MAX,
            count <= i,
            count == loadable_of(phdrs@.take(i as int)).len(),
            count > 0 ==> start == region_start(loadable_of(phdrs@.take(i as int))) && end
                == region_end(loadable_of(phdrs@.take(i as int))),
            count == 0 ==> start == 0 && end == 0,
            start <= end,
        decreases phdrs@.len() - i,
    {
        assert(phdrs@.take(i + 1).drop_last() =~= phdrs@.take(i as int));
        assert(phdrs@.take(i + 1).last() == phdrs@[i as int]);
        if phdrs[i].p_type == PT_LOAD {
            let s = phdrs[i].virt_addr;
            let e = phdrs[i].virt_addr + phdrs[i].mem_size;
            let ghost prev = loadable_of(phdrs@.take(i as int));
            assert(loadable_of(phdrs@.take(i + 1)) == prev.push(phdrs@[i as int]));
            proof {
                assert(prev.push(phdrs@[i as int]).drop_last() =~= prev);
            }
            if count == 0 {
                start = s;
                end = e;
            } else {
                if s < start {
                    start = s;
                }
                if e > end {
                    end = e;
                }
            }
            count = count + 1;
        } else {
            assert(loadable_of(phdrs@.take(i + 1)) == loadable_of(phdrs@.take(i as int)));
        }
        i = i + 1;
    }
    assert(phdrs@.take(phdrs@.len() as int) =~= phdrs@);
    (start, end)
}

/// Whether `t` is exactly the translation of the two images' loadable
/// headers: the runtime image's segments first, unrelocated, then the
/// payload's, relocated into its slot, each matching its header.
pub open spec fn is_translation(t: Seq<Segment>, shim: Image, code: Image, slot: int) -> bool {
    let a = loadable_of(shim.phdrs@);
    let b = loadable_of(code.phdrs@);
    &&& t.len() == a.len() + b.len()
    &&& (forall|k: int| 0 <= k < a.len() ==> seg_matches(#[trigger] t[k], shim.bytes@, a[k], 0))
    &&& (forall|k: int|
        a.len() <= k < t.len() ==> seg_matches(#[trigger] t[k], code.bytes@, b[k - a.len()], slot))
}

/// Whether the operations mirror the segments, one to one and in order:
/// same placement, same length, same bytes, same descriptor, same
/// measurement flag.
pub open spec fn plan_mirrors(adds: Seq<AddPages>, v: Seq<Segment>) -> bool {
    &&& adds.len() == v.len()
    &&& forall|m: int|
        0 <= m < v.len() ==> {
            let op = #[trigger] adds[m];
            op.offset == v[m].vpage * PAGE_SIZE && op.length == v[m].pages@.len() && op.data@
                == v[m].pages@ && op.info == v[m].info && op.measured == v[m].measured
        }
}

/// What every translated segment guarantees: a whole-page buffer, placed so
/// that even the byte offset one past its end fits the machine word.
pub open spec fn seg_fit(s: Segment) -> bool {
    &&& s.pages@.len() % (PAGE_SIZE as nat) == 0
    &&& s.vpage * PAGE_SIZE + s.pages@.len() <= usize::MAX
}

/// Translates both images' loadable headers and arranges the segments:
/// sorted by starting virtual page, refusing any overlap as the fatal
/// construction defect it is.
fn plan_layout(shim: &Image, code: &Image, slot_start: usize) -> (r: Result<Vec<Segment>, Error>)
    requires
        slot_start % PAGE_SIZE == 0,
        forall|k: int|
            0 <= k < shim.phdrs@.len() && shim.phdrs@[k].p_type == PT_LOAD ==> header_fits(
                #[trigger] shim.phdrs@[k],
                shim.bytes@.len() as int,
                0,
            ),
        forall|k: int|
            0 <= k < code.phdrs@.len() && code.phdrs@[k].p_type == PT_LOAD ==> header_fits(
                #[trigger] code.phdrs@[k],
                code.bytes@.len() as int,
                slot_start as int,
            ),
    ensures
        r matches Ok(v) ==> segs_sorted(v@) && segs_nonoverlapping(v@) && (forall|k: int|
            0 <= k < v@.len() ==> seg_fit(#[trigger] v@[k])) && (exists|t: Seq<Segment>|
            is_translation(t, *shim, *code, slot_start as int) && v@.to_multiset()
                == t.to_multiset()),
        r is Err ==> r == Err::<Vec<Segment>, Error>(Error::OverlappingSegments) && (exists|
            t: Seq<Segment>,
        |
            is_translation(t, *shim, *code, slot_start as int) && segs_touch(t)),
{
    let mut segs = translate(&shim.bytes, &shim.phdrs, 0);
    let ghost shim_count = segs@.len();
    let mut more = translate(&code.bytes, &code.phdrs, slot_start);
    let ghost code_segs = more@;
    segs.append(&mut more);

    proof {
        assert forall|k: int| 0 <= k < segs@.len() implies seg_fit(#[trigger] segs@[k]) by {
            if k >= shim_count {
                assert(segs@[k] == code_segs[k - shim_count]);
            }
        }
        assert forall|k: int|
            shim_count <= k < segs@.len() implies seg_matches(
            #[trigger] segs@[k],
            code.bytes@,
            loadable_of(code.phdrs@)[k - shim_count],
            slot_start as int,
        ) by {
            assert(segs@[k] == code_segs[k - shim_count]);
        }
        assert(is_translation(segs@, *shim, *code, slot_start as int));
    }
    let ghost pre_sort = segs@;

    sort_segments(&mut segs);

    proof {
        broadcast use group_to_multiset_ensures;

        assert forall|k: int| 0 <= k < segs@.len() implies seg_fit(#[trigger] segs@[k]) by {
            let s = segs@[k];
            assert(segs@.contains(s));
            assert(segs@.to_multiset().count(s) > 0);
            assert(pre_sort.to_multiset().count(s) > 0);
            assert(pre_sort.contains(s));
            let m = choose|m: int| 0 <= m < pre_sort.len() && pre_sort[m] == s;
            assert(seg_fit(pre_sort[m]));
        }
    }

    match check_overlap(&segs) {
        Ok(()) => {
            proof {
                assert(is_translation(pre_sort, *shim, *code, slot_start as int) && segs@
                    .to_multiset() == pre_sort.to_multiset());
            }
            Ok(segs)
        },
        Err(e) => {
            proof {
                lemma_overlap_witness(segs@, pre_sort);
                assert(is_translation(pre_sort, *shim, *code, slot_start as int) && segs_touch(
                    pre_sort,
                ));
            }
            Err(e)
        },
    }
}

/// Two translations of the same images agree on every segment's placement
/// and span: a clash in one is a clash in the other.
proof fn lemma_translation_clash_agrees(
    t1: Seq<Segment>,
    t2: Seq<Segment>,
    shim: Image,
    code: Image,
    slot: int,
)
    requires
        is_translation(t1, shim, code, slot),
        is_translation(t2, shim, code, slot),
        segs_clash(t1),
    ensures
        segs_clash(t2),
{
    let (i, j) = choose|i: int, j: int|
        0 <= i < t1.len() && 0 <= j < t1.len() && i != j && t1[i].vpage <= t1[j].vpage
            && t1[j].vpage < t1[i].end_page() && t1[j].page_count() > 0;
    assert forall|k: int|
        0 <= k < t1.len() implies #[trigger] t2[k].vpage == t1[k].vpage && t2[k].pages@
        == t1[k].pages@ by {
        let a = loadable_of(shim.phdrs@);
        if k < a.len() {
            assert(seg_matches(t1[k], shim.bytes@, a[k], 0));
            assert(seg_matches(t2[k], shim.bytes@, a[k], 0));
        } else {
            let b = loadable_of(code.phdrs@);
            assert(seg_matches(t1[k], code.bytes@, b[k - a.len()], slot));
            assert(seg_matches(t2[k], code.bytes@, b[k - a.len()], slot));
        }
    }
    assert(t2[i].vpage <= t2[j].vpage && t2[j].vpage < t2[i].end_page() && t2[j].page_count()
        > 0);
}

/// Drives the builder and the hasher over the same segments, in order, by
/// one loop: the records the hasher folds stay exactly the records of the
/// builder's add-page operations — the lock-step is structural, not caller
/// discipline.
fn load_all(builder: &mut Builder, hasher: &mut Hasher, segs: Vec<Segment>) -> (r: Result<
    (),
    Error,
>)
    requires
        forall|k: int| 0 <= k < segs@.len() ==> seg_fit(#[trigger] segs@[k]),
        old(builder).adds@.len() == 0,
        old(hasher).updates() == add_records(old(builder).adds@),
        old(hasher).init_size() == old(builder).size as int,
        old(hasher).init_ssap() == old(builder).ssap as int,
        old(hasher).init_size() >= 0,
    ensures
        r is Ok,
        final(builder).size == old(builder).size,
        final(builder).size_bits == old(builder).size_bits,
        final(builder).ssap == old(builder).ssap,
        final(builder).params == old(builder).params,
        final(hasher).init_size() == old(hasher).init_size(),
        final(hasher).init_ssap() == old(hasher).init_ssap(),
        final(hasher).updates() == add_records(final(builder).adds@),
        final(builder).adds@.len() == segs@.len(),
        plan_mirrors(final(builder).adds@, segs@),
{
    let ghost plan_segs = segs@;
    let mut segs = segs;
    while segs.len() > 0
        invariant
            segs@.len() <= plan_segs.len(),
            segs@ =~= plan_segs.subrange(
                plan_segs.len() - segs@.len(),
                plan_segs.len() as int,
            ),
            forall|k: int| 0 <= k < plan_segs.len() ==> seg_fit(#[trigger] plan_segs[k]),
            builder.size == old(builder).size,
            builder.size_bits == old(builder).size_bits,
            builder.ssap == old(builder).ssap,
            builder.params == old(builder).params,
            hasher.init_size() == old(hasher).init_size(),
            hasher.init_ssap() == old(hasher).init_ssap(),
            hasher.init_size() >= 0,
            hasher.updates() == add_records(builder.adds@),
            builder.adds@.len() == plan_segs.len() - segs@.len(),
            forall|m: int|
                0 <= m < plan_segs.len() - segs@.len() ==> {
                    let op = #[trigger] builder.adds@[m];
                    op.offset == plan_segs[m].vpage * PAGE_SIZE && op.length
                        == plan_segs[m].pages@.len() && op.data@ == plan_segs[m].pages@ && op.info
                        == plan_segs[m].info && op.measured == plan_segs[m].measured
                },
        decreases segs@.len(),
    {
        let ghost pos = plan_segs.len() - segs@.len();
        assert(segs@[0] == plan_segs[pos]);
        assert(seg_fit(plan_segs[pos]));
        let seg = segs.remove(0);
        match hasher.load(&seg.pages, seg.vpage, seg.info, seg.measured) {
            Ok(()) => (),
            Err(e) => {
                return Err(e);
            },
        }
        match builder.load(seg.pages, seg.vpage, seg.info, seg.measured) {
            Ok(()) => (),
            Err(e) => {
                return Err(e);
            },
        }
        proof {
            assert(segs@ =~= plan_segs.subrange(
                plan_segs.len() - segs@.len(),
                plan_segs.len() as int,
            ));
            assert forall|m: int| 0 <= m < plan_segs.len() - segs@.len() implies {
                let op = #[trigger] builder.adds@[m];
                op.offset == plan_segs[m].vpage * PAGE_SIZE && op.length
                    == plan_segs[m].pages@.len() && op.data@ == plan_segs[m].pages@ && op.info
                    == plan_segs[m].info && op.measured == plan_segs[m].measured
            } by {
                if m < builder.adds@.len() - 1 {
                    assert(builder.adds@[m] == builder.adds@.drop_last()[m]);
                }
            }
        }
    }
    assert(plan_mirrors(builder.adds@, plan_segs));
    Ok(())
}

/// One pair: an operation mirroring a whole-page segment that ends at or
/// before a second segment's first page ends at or before the operation
/// mirroring that second segment.
proof fn lemma_pair_disjoint(a: AddPages, sa: Segment, b: AddPages, sb: Segment)
    requires
        a.offset == sa.vpage * PAGE_SIZE,
        a.length == sa.pages@.len(),
        b.offset == sb.vpage * PAGE_SIZE,
        sa.pages@.len() as int % (PAGE_SIZE as int) == 0,
        sa.end_page() <= sb.vpage,
    ensures
        a.offset + a.length <= b.offset,
{
    let len = sa.pages@.len() as int;
    lemma_fundamental_div_mod(len, PAGE_SIZE as int);
    assert(sa.vpage * PAGE_SIZE + len <= sb.vpage * PAGE_SIZE) by (nonlinear_arith)
        requires
            len == (PAGE_SIZE as int) * (len / PAGE_SIZE as int),
            sa.vpage + len / (PAGE_SIZE as int) <= sb.vpage,
            PAGE_SIZE as int > 0,
    ;
}

/// Operations that mirror sorted, non-overlapping, whole-page segments are
/// laid out: each ends at or before the next begins.
#[verifier::spinoff_prover]
proof fn lemma_plan_laid_out(adds: Seq<AddPages>, segs: Seq<Segment>)
    requires
        adds.len() == segs.len(),
        forall|m: int|
            0 <= m < segs.len() ==> {
                let op = #[trigger] adds[m];
                op.offset == segs[m].vpage * PAGE_SIZE && op.length == segs[m].pages@.len()
            },
        forall|k: int|
            0 <= k < segs.len() ==> (#[trigger] segs[k]).pages@.len() as int % (PAGE_SIZE as int)
                == 0,
        segs_nonoverlapping(segs),
    ensures
        adds_laid_out(adds),
{
    assert forall|m: int| 0 <= m < adds.len() implies (#[trigger] adds[m]).length as int % (
    PAGE_SIZE as int) == 0 by {
        assert(segs[m].pages@.len() as int % (PAGE_SIZE as int) == 0);
    }
    assert forall|m: int| 0 <= m < adds.len() - 1 implies adds[m].offset
        + #[trigger] adds[m].length <= adds[m + 1].offset by {
        assert(segs[m].end_page() <= segs[m + 1].vpage);
        lemma_pair_disjoint(adds[m], segs[m], adds[m + 1], segs[m + 1]);
    }
}

/// Builds a keep: translates both images' loadable headers into segments
/// (the payload relocated into its slot), sorts them by virtual page and
/// refuses any overlap, drives the builder and the measurement hasher in
/// lock-step over the sorted segments, signs the finished digest with a
/// fresh key, and returns the plan the hardware control surface executes.
///
/// On success the plan's measurement is exactly the digest of the plan's
/// own add-page operations, in order: measurement and construction cannot
/// drift apart.
#[verifier::rlimit(100)]
pub fn build_keep(
    shim: &Image,
    code: &Image,
    slot_start: usize,
    slot_count: usize,
    size_bits: u32,
    ssap: u32,
) -> (r: Result<EnclavePlan, Error>)
    requires
        slot_start % PAGE_SIZE == 0,
        ssap > 0,
        size_bits < usize::BITS,
        forall|k: int|
            0 <= k < shim.phdrs@.len() && shim.phdrs@[k].p_type == PT_LOAD ==> header_fits(
                #[trigger] shim.phdrs@[k],
                shim.bytes@.len() as int,
                0,
            ),
        forall|k: int|
            0 <= k < code.phdrs@.len() && code.phdrs@[k].p_type == PT_LOAD ==> header_fits(
                #[trigger] code.phdrs@[k],
                code.bytes@.len() as int,
                slot_start as int,
            ),
    ensures
        r == Err::<EnclavePlan, Error>(Error::CodeTooLarge) <==> region_count(code.phdrs@)
            > slot_count,
        r is Err ==> r == Err::<EnclavePlan, Error>(Error::CodeTooLarge) || r == Err::<
            EnclavePlan,
            Error,
        >(Error::OverlappingSegments) || r == Err::<EnclavePlan, Error>(Error::KeyGeneration) || r
            == Err::<EnclavePlan, Error>(Error::Signing),
        region_count(code.phdrs@) <= slot_count && (exists|t: Seq<Segment>|
            is_translation(t, *shim, *code, slot_start as int) && segs_clash(t)) ==> r == Err::<
            EnclavePlan,
            Error,
        >(Error::OverlappingSegments),
        r == Err::<EnclavePlan, Error>(Error::OverlappingSegments) ==> exists|t: Seq<Segment>|
            is_translation(t, *shim, *code, slot_start as int) && segs_touch(t),
        r matches Ok(plan) ==> plan.size == (1usize << size_bits) && plan.size_bits == size_bits
            && plan.ssap == ssap && plan.mrenclave@.len() == 32 && plan.mrenclave@ == mrenclave_of(
            plan.size as int,
            plan.ssap as int,
            add_records(plan.adds@),
        ) && adds_laid_out(plan.adds@) && (exists|v: Seq<Segment>, t: Seq<Segment>|
            is_translation(t, *shim, *code, slot_start as int) && v.to_multiset()
                == t.to_multiset() && segs_sorted(v) && segs_nonoverlapping(v) && plan_mirrors(
                plan.adds@,
                v,
            )),
{
    // The payload must fit in the slot the runtime image reserves for it.
    let (code_start, code_end) = region_span(&code.phdrs);
    if code_end - code_start > slot_count {
        return Err(Error::CodeTooLarge);
    }

    let segs = match plan_layout(shim, code, slot_start) {
        Ok(v) => v,
        Err(e) => {
            return Err(e);
        },
    };
    let ghost plan_segs = segs@;
    let ghost translation = choose|t: Seq<Segment>|
        is_translation(t, *shim, *code, slot_start as int) && plan_segs.to_multiset()
            == t.to_multiset();
    proof {
        lemma_sorted_arrangement_excludes_clash(plan_segs, translation);
        assert forall|t: Seq<Segment>|
            !(is_translation(t, *shim, *code, slot_start as int) && segs_clash(t)) by {
            if is_translation(t, *shim, *code, slot_start as int) && segs_clash(t) {
                lemma_translation_clash_agrees(t, translation, *shim, *code, slot_start as int);
            }
        }
    }

    let params = parameters_default();
    let mut builder = Builder::new(size_bits, ssap, params);
    let mut hasher = Hasher::new(builder.size, ssap);
    proof {
        assert(hasher.updates() =~= add_records(builder.adds@));
    }
    match load_all(&mut builder, &mut hasher, segs) {
        Ok(()) => (),
        Err(e) => {
            return Err(e);
        },
    }

    proof {
        assert forall|k: int| 0 <= k < plan_segs.len() implies (
        #[trigger] plan_segs[k]).pages@.len() as int % (PAGE_SIZE as int) == 0 by {
            assert(seg_fit(plan_segs[k]));
        }
        lemma_plan_laid_out(builder.adds@, plan_segs);
    }

    let mrenclave = hasher.finish();
    let signature = match sign_measurement(&params, &mrenclave) {
        Ok(s) => s,
        Err(e) => {
            return Err(e);
        },
    };
    let plan = builder.build(signature, mrenclave);
    proof {
        assert(is_translation(translation, *shim, *code, slot_start as int)
            && plan_segs.to_multiset() == translation.to_multiset() && segs_sorted(plan_segs)
            && segs_nonoverlapping(plan_segs) && plan_mirrors(plan.adds@, plan_segs));
    }
    Ok(plan)
}

/// The thread-control pages of an operation sequence: one thread may be
/// spawned per thread-control page, in plan order.
pub open spec fn tcs_pages_of(adds: Seq<AddPages>) -> Seq<int>
    decreases adds.len(),
{
    if adds.len() == 0 {
        Seq::empty()
    } else {
        let rest = tcs_pages_of(adds.drop_last());
        if adds.last().info.class is ThreadControl {
            rest.push(adds.last().offset as int / PAGE_SIZE as int)
        } else {
            rest
        }
    }
}

/// The finished, runnable enclave: the thread-control pages its plan laid
/// out, and how many threads were already spawned against them.
pub struct Enclave {
    /// Virtual page numbers of the thread-control pages, in plan order.
    pub tcs_pages: Vec<usize>,
    /// How many of them already back a spawned thread.
    pub spawned: usize,
}

impl Enclave {
    /// Collects the thread-control pages of a finished plan.
    pub fn from_plan(plan: &EnclavePlan) -> (r: Enclave)
        ensures
            r.spawned == 0,
            r.tcs_pages@.len() == tcs_pages_of(plan.adds@).len(),
            forall|k: int|
                0 <= k < r.tcs_pages@.len() ==> #[trigger] r.tcs_pages@[k] == tcs_pages_of(
                    plan.adds@,
                )[k],
    {
        let mut tcs_pages: Vec<usize> = Vec::new();
        let mut i: usize = 0;
        while i < plan.adds.len()
            invariant
                i <= plan.adds@.len(),
                tcs_pages@.len() == tcs_pages_of(plan.adds@.take(i as int)).len(),
                forall|k: int|
                    0 <= k < tcs_pages@.len() ==> #[trigger] tcs_pages@[k] == tcs_pages_of(
                        plan.adds@.take(i as int),
                    )[k],
            decreases plan.adds@.len() - i,
        {
            assert(plan.adds@.take(i + 1).drop_last() =~= plan.adds@.take(i as int));
            assert(plan.adds@.take(i + 1).last() == plan.adds@[i as int]);
            let is_tcs = match plan.adds[i].info.class {
                PageClass::ThreadControl => true,
                PageClass::Regular => false,
            };
            if is_tcs {
                tcs_pages.push(plan.adds[i].offset / PAGE_SIZE);
            }
            i = i + 1;
        }
        assert(plan.adds@.take(plan.adds@.len() as int) =~= plan.adds@);
        Enclave { tcs_pages, spawned: 0 }
    }

    /// Spawns a thread against the next free thread-control page: fresh
    /// entry mode, depth zero, default registers, an empty shared block.
    /// Yields nothing once every thread-control page backs a thread.
    pub fn spawn(&mut self) -> (r: Option<Thread>)
        ensures
            old(self).spawned < old(self).tcs_pages@.len() ==> (r matches Some(t)
                && t.tcs == old(self).tcs_pages@[old(self).spawned as int] && t.cssa == 0
                && t.how == Entry::Enter
                && t.registers == (Registers { rdi: 0, rsi: 0, rdx: 0, r8: 0, r9: 0 })
                && (t.block.msg matches crate::block::Message::Req(q) && q.num == 0))
                && final(self).spawned == old(self).spawned + 1
                && final(self).tcs_pages == old(self).tcs_pages,
            old(self).spawned >= old(self).tcs_pages@.len() ==> r is None
                && *final(self) == *old(self),
    {
        if self.spawned < self.tcs_pages.len() {
            let tcs = self.tcs_pages[self.spawned];
            self.spawned = self.spawned + 1;
            Some(
                Thread {
                    tcs,
                    registers: Registers::default(),
                    block: Block::default(),
                    cssa: 0,
                    how: Entry::Enter,
                },
            )
        } else {
            None
        }
    }
}

} // verus!
