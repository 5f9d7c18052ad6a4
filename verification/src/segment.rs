//! The segment translator: converts an image's loadable program headers into
//! page-aligned, access-tagged memory segments relative to a chosen base
//! address. Segments, once ordered by starting virtual page, must not
//! overlap: an overlap is a construction defect, not recoverable input.

use vstd::prelude::*;
use vstd::seq_lib::group_to_multiset_ensures;

use crate::{Error, PAGE_SIZE};

verus! {

/// The program-header type of a loadable segment.
pub const PT_LOAD: u32 = 1;

/// Permission bit: executable.
pub const PF_X: u32 = 1;

/// Permission bit: writable.
pub const PF_W: u32 = 2;

/// Permission bit: readable.
pub const PF_R: u32 = 4;

/// OS-specific flag marking a header as thread-control pages.
pub const PF_SGX_TCS: u32 = 0x100000;

/// OS-specific flag requesting that a load not contribute to the digest.
pub const PF_SGX_UNMEASURED: u32 = 0x200000;

/// One loadable program header, as the image abstraction exposes it: a file
/// byte range, a virtual address range and coarse permission bits.
#[derive(Clone, Copy, Debug, PartialEq, Eq, Structural)]
pub struct ProgramHeader {
    pub p_type: u32,
    pub p_flags: u32,
    /// Offset of the segment's bytes within the image file.
    pub file_offset: usize,
    /// Number of bytes the segment takes in the file.
    pub file_size: usize,
    /// Virtual address the segment loads at, before relocation.
    pub virt_addr: usize,
    /// Number of bytes the segment takes in memory.
    pub mem_size: usize,
}

/// The page class of a segment.
#[derive(Clone, Copy, Debug, PartialEq, Eq, Structural)]
pub enum PageClass {
    /// An ordinary enclave page.
    Regular,
    /// A hardware thread-control page.
    ThreadControl,
}

/// The page-class and access tag of a segment's pages.
#[derive(Clone, Copy, Debug, PartialEq, Eq, Structural)]
pub struct PageInfo {
    pub class: PageClass,
    pub read: bool,
    pub write: bool,
    pub execute: bool,
}

/// Whether a header's pages are thread-control pages.
pub open spec fn header_is_tcs(flags: u32) -> bool {
    flags & PF_SGX_TCS != 0
}

/// Whether a header's load contributes to the measurement digest.
pub open spec fn header_measured(flags: u32) -> bool {
    flags & PF_SGX_UNMEASURED == 0
}

/// The page info a header's flags dictate: thread-control pages carry no
/// access bits; regular pages copy the header's read/write/execute bits.
pub open spec fn header_info(flags: u32) -> PageInfo {
    if header_is_tcs(flags) {
        PageInfo { class: PageClass::ThreadControl, read: false, write: false, execute: false }
    } else {
        PageInfo {
            class: PageClass::Regular,
            read: flags & PF_R == PF_R,
            write: flags & PF_W == PF_W,
            execute: flags & PF_X == PF_X,
        }
    }
}

/// A byte buffer of `total` bytes holding `data` at offset `skip`, zero
/// everywhere else: the file bytes zero-padded at both ends.
pub open spec fn zero_padded(data: Seq<u8>, skip: int, total: nat) -> Seq<u8> {
    Seq::new(
        total,
        |i: int|
            if skip <= i < skip + data.len() {
                data[i - skip]
            } else {
                0u8
            },
    )
}

/// One image segment: file byte range, relocated memory byte range, the
/// owning page buffer (zero-padded to page boundaries), its first virtual
/// page, its page-class/access tag, and whether it is measured.
#[derive(Clone, Debug)]
pub struct Segment {
    pub file_start: usize,
    pub file_end: usize,
    pub mem_start: usize,
    pub mem_end: usize,
    /// Page-aligned physical page buffer, initialized from the file bytes
    /// and zero-padded at both ends to page boundaries.
    pub pages: Vec<u8>,
    /// First virtual page of the segment.
    pub vpage: usize,
    pub info: PageInfo,
    pub measured: bool,
}

impl Segment {
    /// Number of pages this segment owns.
    pub open spec fn page_count(self) -> int {
        self.pages@.len() as int / PAGE_SIZE as int
    }

    /// First virtual page past this segment.
    pub open spec fn end_page(self) -> int {
        self.vpage + self.page_count()
    }
}

/// Whether a segment is exactly the translation of a program header against
/// an image, relocated by the given page-aligned offset.
pub open spec fn seg_matches(
    seg: Segment,
    image: Seq<u8>,
    phdr: ProgramHeader,
    relocate: int,
) -> bool {
    let mem_start = phdr.virt_addr + relocate;
    let skip = mem_start % (PAGE_SIZE as int);
    let copied = if phdr.file_size <= phdr.mem_size {
        phdr.file_size as int
    } else {
        phdr.mem_size as int
    };
    let total = ((skip + phdr.mem_size + PAGE_SIZE - 1) / (PAGE_SIZE as int)) * (PAGE_SIZE as int);
    &&& seg.file_start == phdr.file_offset
    &&& seg.file_end == phdr.file_offset + phdr.file_size
    &&& seg.mem_start == mem_start
    &&& seg.mem_end == mem_start + phdr.mem_size
    &&& seg.vpage == mem_start / (PAGE_SIZE as int)
    &&& seg.pages@ == zero_padded(
        image.subrange(phdr.file_offset as int, phdr.file_offset + copied),
        skip,
        total as nat,
    )
    &&& seg.info == header_info(phdr.p_flags)
    &&& seg.measured == header_measured(phdr.p_flags)
}

/// The machine-limit and image-validity bounds a header must satisfy before
/// translation; the caller checks them and fails as on malformed input.
pub open spec fn header_fits(phdr: ProgramHeader, image_len: int, relocate: int) -> bool {
    &&& phdr.file_offset + phdr.file_size <= image_len
    &&& phdr.virt_addr + relocate + phdr.mem_size + 2 * PAGE_SIZE <= usize::MAX
}

/// Checks the translation bounds of one header at run time, for callers
/// that take images from outside and must refuse malformed ones.
pub fn header_fits_exec(phdr: &ProgramHeader, image_len: usize, relocate: usize) -> (r: bool)
    ensures
        r == header_fits(*phdr, image_len as int, relocate as int),
{
    let file_span: u128 = phdr.file_offset as u128 + phdr.file_size as u128;
    let mem_span: u128 = phdr.virt_addr as u128 + relocate as u128 + phdr.mem_size as u128 + 2
        * (PAGE_SIZE as u128);
    file_span <= image_len as u128 && mem_span <= usize::MAX as u128
}

impl Segment {
    /// Translates one loadable program header into a segment: the file bytes
    /// are copied into a fresh page buffer at the address's in-page offset,
    /// zero-padded at both ends; the page class, access bits and measurement
    /// tag follow the header's flags. The relocation offset must be
    /// page-aligned: a misaligned offset is a build-time defect.
    pub fn new(image: &Vec<u8>, phdr: &ProgramHeader, relocate: usize) -> (r: Segment)
        requires
            relocate % PAGE_SIZE == 0,
            header_fits(*phdr, image@.len() as int, relocate as int),
        ensures
            seg_matches(r, image@, *phdr, relocate as int),
            r.pages@.len() % (PAGE_SIZE as nat) == 0,
            r.vpage * PAGE_SIZE <= r.mem_start,
            r.vpage * PAGE_SIZE + r.pages@.len() <= usize::MAX,
    {
        let mem_start: usize = phdr.virt_addr + relocate;
        let mem_end: usize = mem_start + phdr.mem_size;
        let skip: usize = mem_start % PAGE_SIZE;
        let vpage: usize = mem_start / PAGE_SIZE;
        let copied: usize = if phdr.file_size <= phdr.mem_size {
            phdr.file_size
        } else {
            phdr.mem_size
        };
        let total: usize = ((skip + phdr.mem_size + PAGE_SIZE - 1) / PAGE_SIZE) * PAGE_SIZE;

        let ghost target = zero_padded(
            image@.subrange(phdr.file_offset as int, phdr.file_offset + copied as int),
            skip as int,
            total as nat,
        );

        let image_len: usize = image.len();
        let mut pages: Vec<u8> = Vec::new();
        let mut i: usize = 0;
        while i < total
            invariant
                i <= total,
                pages@.len() == i as int,
                skip + copied <= total,
                copied <= phdr.file_size,
                image@.len() == image_len as int,
                header_fits(*phdr, image@.len() as int, relocate as int),
                target == zero_padded(
                    image@.subrange(phdr.file_offset as int, phdr.file_offset + copied as int),
                    skip as int,
                    total as nat,
                ),
                forall|k: int| 0 <= k < i ==> pages@[k] == target[k],
            decreases total - i,
        {
            if skip <= i && i < skip + copied {
                pages.push(image[phdr.file_offset + (i - skip)]);
            } else {
                pages.push(0u8);
            }
            i = i + 1;
        }
        assert(pages@ =~= target);
        assert(phdr.file_offset + phdr.file_size <= image_len);

        let tcs = phdr.p_flags & PF_SGX_TCS != 0;
        let info = if tcs {
            PageInfo { class: PageClass::ThreadControl, read: false, write: false, execute: false }
        } else {
            PageInfo {
                class: PageClass::Regular,
                read: phdr.p_flags & PF_R == PF_R,
                write: phdr.p_flags & PF_W == PF_W,
                execute: phdr.p_flags & PF_X == PF_X,
            }
        };

        Segment {
            file_start: phdr.file_offset,
            file_end: phdr.file_offset + phdr.file_size,
            mem_start,
            mem_end,
            pages,
            vpage,
            info,
            measured: phdr.p_flags & PF_SGX_UNMEASURED == 0,
        }
    }
}

/// The loadable headers of a header sequence, in order.
pub open spec fn loadable_of(phdrs: Seq<ProgramHeader>) -> Seq<ProgramHeader>
    decreases phdrs.len(),
{
    if phdrs.len() == 0 {
        Seq::empty()
    } else {
        let rest = loadable_of(phdrs.drop_last());
        if phdrs.last().p_type == PT_LOAD {
            rest.push(phdrs.last())
        } else {
            rest
        }
    }
}

/// Translates every loadable header of an image into a segment, in order.
pub fn translate(image: &Vec<u8>, phdrs: &Vec<ProgramHeader>, relocate: usize) -> (r: Vec<Segment>)
    requires
        relocate % PAGE_SIZE == 0,
        forall|k: int|
            0 <= k < phdrs@.len() && phdrs@[k].p_type == PT_LOAD ==> header_fits(
                phdrs@[k],
                image@.len() as int,
                relocate as int,
            ),
    ensures
        r@.len() == loadable_of(phdrs@).len(),
        forall|k: int|
            0 <= k < r@.len() ==> seg_matches(r@[k], image@, loadable_of(phdrs@)[k], relocate as int)
                && r@[k].pages@.len() % (PAGE_SIZE as nat) == 0 && r@[k].vpage * PAGE_SIZE
                <= r@[k].mem_start && r@[k].vpage * PAGE_SIZE + r@[k].pages@.len() <= usize::MAX,
{
    let mut r: Vec<Segment> = Vec::new();
    let mut i: usize = 0;
    while i < phdrs.len()
        invariant
            i <= phdrs@.len(),
            relocate % PAGE_SIZE == 0,
            forall|k: int|
                0 <= k < phdrs@.len() && phdrs@[k].p_type == PT_LOAD ==> header_fits(
                    phdrs@[k],
                    image@.len() as int,
                    relocate as int,
                ),
            r@.len() == loadable_of(phdrs@.take(i as int)).len(),
            forall|k: int|
                0 <= k < r@.len() ==> seg_matches(
                    r@[k],
                    image@,
                    loadable_of(phdrs@.take(i as int))[k],
                    relocate as int,
                ) && r@[k].pages@.len() % (PAGE_SIZE as nat) == 0 && r@[k].vpage * PAGE_SIZE
                    <= r@[k].mem_start && r@[k].vpage * PAGE_SIZE + r@[k].pages@.len()
                    <= usize::MAX,
        decreases phdrs@.len() - i,
    {
        assert(phdrs@.take(i + 1).drop_last() =~= phdrs@.take(i as int));
        assert(phdrs@.take(i + 1).last() == phdrs@[i as int]);
        if phdrs[i].p_type == PT_LOAD {
            let seg = Segment::new(image, &phdrs[i], relocate);
            r.push(seg);
        }
        i = i + 1;
    }
    assert(phdrs@.take(phdrs@.len() as int) =~= phdrs@);
    r
}

/// Whether a segment sequence is ordered by starting virtual page.
pub open spec fn segs_sorted(s: Seq<Segment>) -> bool {
    forall|i: int, j: int| 0 <= i < j < s.len() ==> s[i].vpage <= s[j].vpage
}

/// Whether each segment ends at or before the next one starts.
pub open spec fn segs_nonoverlapping(s: Seq<Segment>) -> bool {
    forall|i: int| 0 <= i < s.len() - 1 ==> #[trigger] s[i].end_page() <= s[i + 1].vpage
}

/// Sorts segments by starting virtual page; the result is a permutation.
pub fn sort_segments(v: &mut Vec<Segment>)
    ensures
        segs_sorted(final(v)@),
        final(v)@.to_multiset() == old(v)@.to_multiset(),
{
    broadcast use group_to_multiset_ensures;

    if v.len() <= 1 {
        return ;
    }
    let mut i: usize = 1;
    while i < v.len()
        invariant
            1 <= i <= v@.len(),
            segs_sorted(v@.take(i as int)),
            v@.to_multiset() == old(v)@.to_multiset(),
        decreases v@.len() - i,
    {
        let ghost pre = v@;
        let x = v.remove(i);
        let mut j: usize = i;
        while j > 0 && v[j - 1].vpage > x.vpage
            invariant
                j <= i,
                i < pre.len(),
                v@ == pre.remove(i as int),
                x == pre[i as int],
                forall|k: int| j <= k < i ==> pre[k].vpage > x.vpage,
            decreases j,
        {
            assert(v@[j - 1] == pre[j - 1]);
            j = j - 1;
        }
        assert(j == 0 || pre[j - 1].vpage <= x.vpage) by {
            if j > 0 {
                assert(v@[j - 1] == pre[j - 1]);
            }
        }
        v.insert(j, x);
        proof {
            broadcast use group_to_multiset_ensures;
            broadcast use vstd::multiset::group_multiset_axioms;

            assert(pre.to_multiset().count(x) > 0) by {
                assert(pre[i as int] == x);
                assert(pre.contains(x));
            }
            assert(v@.to_multiset() =~= pre.to_multiset());
            assert(forall|k: int| 0 <= k < j ==> v@[k] == pre[k]);
            assert(forall|k: int| j < k <= i ==> v@[k] == pre[k - 1]);
            assert(v@[j as int] == x);
            assert(segs_sorted(pre.take(i as int)));
            assert forall|a: int, b: int| 0 <= a < b <= i implies v@[a].vpage
                <= v@[b].vpage by {
                if b < j {
                    assert(pre[a].vpage <= pre[b].vpage);
                } else if b == j {
                    assert(a < j);
                    assert(pre[a].vpage <= pre[j - 1].vpage);
                } else if a == j {
                    assert(pre[b - 1].vpage > x.vpage);
                } else if a < j {
                    assert(pre[a].vpage <= pre[b - 1].vpage);
                } else {
                    assert(pre[a - 1].vpage <= pre[b - 1].vpage);
                }
            }
            assert(segs_sorted(v@.take(i + 1)));
        }
        i = i + 1;
    }
    proof {
        assert(v@.take(v@.len() as int) =~= v@);
    }
}

/// Checks that no two adjacent segments of a sorted sequence overlap:
/// reports the fatal construction defect exactly when some segment runs
/// into the next one's first page.
pub fn check_overlap(v: &Vec<Segment>) -> (r: Result<(), Error>)
    ensures
        r is Ok <==> segs_nonoverlapping(v@),
        r is Err ==> r == Err::<(), Error>(Error::OverlappingSegments),
{
    if v.len() < 2 {
        return Ok(());
    }
    let mut i: usize = 0;
    while i < v.len() - 1
        invariant
            v@.len() >= 2,
            i <= v@.len() - 1,
            forall|k: int| 0 <= k < i ==> #[trigger] v@[k].end_page() <= v@[k + 1].vpage,
        decreases v@.len() - i,
    {
        let pages: usize = v[i].pages.len() / PAGE_SIZE;
        let end: u128 = v[i].vpage as u128 + pages as u128;
        if end > v[i + 1].vpage as u128 {
            assert(v@[i as int].end_page() > v@[i as int + 1].vpage);
            return Err(Error::OverlappingSegments);
        }
        i = i + 1;
    }
    Ok(())
}

/// Whether some two segments of the sequence claim a common virtual page:
/// one starts inside another and owns at least one page itself.
pub open spec fn segs_clash(t: Seq<Segment>) -> bool {
    exists|i: int, j: int|
        0 <= i < t.len() && 0 <= j < t.len() && i != j && t[i].vpage <= t[j].vpage && t[j].vpage
            < t[i].end_page() && t[j].page_count() > 0
}

/// Whether some segment starts at or inside another's page span — the
/// relation the pairwise check reports. A segment owning no pages can touch
/// a page boundary this way without claiming a common page.
pub open spec fn segs_touch(t: Seq<Segment>) -> bool {
    exists|i: int, j: int|
        0 <= i < t.len() && 0 <= j < t.len() && i != j && t[i].vpage <= t[j].vpage && t[j].vpage
            < t[i].end_page()
}

/// Two positions holding one value put its multiset count at two or more.
proof fn lemma_dup_count(s: Seq<Segment>, i: int, j: int)
    requires
        0 <= i < s.len(),
        0 <= j < s.len(),
        i != j,
        s[i] == s[j],
    ensures
        s.to_multiset().count(s[i]) >= 2,
{
    broadcast use group_to_multiset_ensures;
    broadcast use vstd::multiset::group_multiset_axioms;

    let s2 = s.remove(i);
    let j2: int = if j < i {
        j
    } else {
        j - 1
    };
    assert(s2[j2] == s[j]);
    assert(s2.contains(s[i]));
    assert(s2.to_multiset().count(s[i]) > 0);
}

/// A multiset count of two or more yields two distinct positions.
proof fn lemma_count_two_positions(s: Seq<Segment>, x: Segment)
    requires
        s.to_multiset().count(x) >= 2,
    ensures
        exists|a: int, b: int|
            0 <= a < s.len() && 0 <= b < s.len() && a != b && s[a] == x && s[b] == x,
{
    broadcast use group_to_multiset_ensures;
    broadcast use vstd::multiset::group_multiset_axioms;

    assert(s.contains(x));
    let a = choose|a: int| 0 <= a < s.len() && s[a] == x;
    let s2 = s.remove(a);
    assert(s2.to_multiset().count(x) >= 1);
    assert(s2.contains(x));
    let b2 = choose|b: int| 0 <= b < s2.len() && s2[b] == x;
    let b: int = if b2 < a {
        b2
    } else {
        b2 + 1
    };
    assert(s[b] == x);
    assert(0 <= a < s.len() && 0 <= b < s.len() && a != b && s[a] == x && s[b] == x);
}

/// If some arrangement of the segments is sorted and non-overlapping, then
/// no two of them claim a common page: an overlap among the inputs forces
/// the pairwise check to fail in every sorted order.
pub proof fn lemma_sorted_arrangement_excludes_clash(v: Seq<Segment>, t: Seq<Segment>)
    requires
        segs_sorted(v),
        segs_nonoverlapping(v),
        v.to_multiset() == t.to_multiset(),
    ensures
        !segs_clash(t),
{
    broadcast use group_to_multiset_ensures;
    broadcast use vstd::multiset::group_multiset_axioms;

    if segs_clash(t) {
        let (i, j) = choose|i: int, j: int|
            0 <= i < t.len() && 0 <= j < t.len() && i != j && t[i].vpage <= t[j].vpage
                && t[j].vpage < t[i].end_page() && t[j].page_count() > 0;
        let x = t[i];
        let y = t[j];
        assert(forall|k: int| 0 <= k < v.len() ==> #[trigger] v[k].page_count() >= 0);
        if x == y {
            lemma_dup_count(t, i, j);
            assert(v.to_multiset().count(x) >= 2);
            lemma_count_two_positions(v, x);
            let (a, b) = choose|a: int, b: int|
                0 <= a < v.len() && 0 <= b < v.len() && a != b && v[a] == x && v[b] == x;
            if a < b {
                lemma_nonoverlap_pairwise(v, a, b);
            } else {
                lemma_nonoverlap_pairwise(v, b, a);
            }
        } else {
            assert(t.contains(x) && t.contains(y));
            assert(v.to_multiset().count(x) > 0 && v.to_multiset().count(y) > 0);
            assert(v.contains(x) && v.contains(y));
            let a = choose|a: int| 0 <= a < v.len() && v[a] == x;
            let b = choose|b: int| 0 <= b < v.len() && v[b] == y;
            if a < b {
                lemma_nonoverlap_pairwise(v, a, b);
            } else {
                lemma_nonoverlap_pairwise(v, b, a);
            }
        }
    }
}

/// A sorted arrangement with two adjacent segments in conflict exhibits the
/// touch relation among the original segments.
pub proof fn lemma_overlap_witness(v: Seq<Segment>, t: Seq<Segment>)
    requires
        segs_sorted(v),
        !segs_nonoverlapping(v),
        v.to_multiset() == t.to_multiset(),
    ensures
        segs_touch(t),
{
    broadcast use group_to_multiset_ensures;
    broadcast use vstd::multiset::group_multiset_axioms;

    let k = choose|k: int| 0 <= k < v.len() - 1 && !(v[k].end_page() <= v[k + 1].vpage);
    let x = v[k];
    let y = v[k + 1];
    assert(x.vpage <= y.vpage);
    if x == y {
        lemma_dup_count(v, k, k + 1);
        assert(t.to_multiset().count(x) >= 2);
        lemma_count_two_positions(t, x);
        let (a, b) = choose|a: int, b: int|
            0 <= a < t.len() && 0 <= b < t.len() && a != b && t[a] == x && t[b] == x;
        assert(t[a].vpage <= t[b].vpage && t[b].vpage < t[a].end_page());
    } else {
        assert(v.contains(x) && v.contains(y));
        assert(t.to_multiset().count(x) > 0 && t.to_multiset().count(y) > 0);
        assert(t.contains(x) && t.contains(y));
        let a = choose|a: int| 0 <= a < t.len() && t[a] == x;
        let b = choose|b: int| 0 <= b < t.len() && t[b] == y;
        assert(a != b);
        assert(t[a].vpage <= t[b].vpage && t[b].vpage < t[a].end_page());
    }
}

/// In a sorted, non-overlapping sequence every earlier segment ends at or
/// before every later one starts: for any two segments the first's last
/// page precedes the second's first page.
pub proof fn lemma_nonoverlap_pairwise(s: Seq<Segment>, i: int, j: int)
    requires
        segs_sorted(s),
        segs_nonoverlapping(s),
        forall|k: int| 0 <= k < s.len() ==> #[trigger] s[k].page_count() >= 0,
        0 <= i < j < s.len(),
    ensures
        s[i].end_page() <= s[j].vpage,
    decreases j - i,
{
    if j == i + 1 {
    } else {
        lemma_nonoverlap_pairwise(s, i + 1, j);
    }
}

} // verus!
