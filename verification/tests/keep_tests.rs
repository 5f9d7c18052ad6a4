use core::num::NonZeroU32;

use sgx_keep::builder::AddPages;
use sgx_keep::keep::{build_keep, Enclave, Image};
use sgx_keep::measure::Hasher;
use sgx_keep::segment::{
    check_overlap, sort_segments, translate, PageClass, PageInfo, ProgramHeader, Segment,
    PF_R, PF_SGX_TCS, PF_SGX_UNMEASURED, PF_W, PF_X, PT_LOAD,
};
use sgx_keep::thread::Entry;
use sgx_keep::Error;

const PAGE: usize = 4096;

fn phdr(
    p_flags: u32,
    file_offset: usize,
    file_size: usize,
    virt_addr: usize,
    mem_size: usize,
) -> ProgramHeader {
    ProgramHeader { p_type: PT_LOAD, p_flags, file_offset, file_size, virt_addr, mem_size }
}

fn rwx_info() -> PageInfo {
    PageInfo { class: PageClass::Regular, read: true, write: true, execute: true }
}

#[test]
fn segment_translation_zero_padding() {
    let mut image = vec![0u8; 64];
    image[10] = 1;
    image[11] = 2;
    image[12] = 3;
    let h = phdr(PF_R, 10, 3, 5 * PAGE + 3, 10);
    let seg = Segment::new(&image, &h, 0);
    assert_eq!(seg.vpage, 5);
    assert_eq!(seg.pages.len(), PAGE);
    assert_eq!(&seg.pages[0..3], &[0, 0, 0]);
    assert_eq!(&seg.pages[3..6], &[1, 2, 3]);
    assert!(seg.pages[6..].iter().all(|b| *b == 0));
    assert_eq!(seg.mem_start, 5 * PAGE + 3);
    assert_eq!(seg.mem_end, 5 * PAGE + 13);
}

#[test]
fn segment_flag_mapping() {
    let image = vec![0u8; PAGE];
    let seg = Segment::new(&image, &phdr(PF_R | PF_W, 0, 16, 0, 16), 0);
    assert_eq!(seg.info.class, PageClass::Regular);
    assert!(seg.info.read && seg.info.write && !seg.info.execute);
    assert!(seg.measured);

    let seg = Segment::new(&image, &phdr(PF_R | PF_SGX_TCS, 0, 16, PAGE, 16), 0);
    assert_eq!(seg.info.class, PageClass::ThreadControl);
    assert!(!seg.info.read && !seg.info.write && !seg.info.execute);

    let seg = Segment::new(&image, &phdr(PF_X | PF_SGX_UNMEASURED, 0, 16, 2 * PAGE, 16), 0);
    assert!(!seg.measured);
    assert!(seg.info.execute);
}

#[test]
fn sorted_segments_do_not_overlap() {
    let image = vec![7u8; 3 * PAGE];
    let phdrs = vec![
        phdr(PF_R, 0, PAGE, 4 * PAGE, PAGE),
        phdr(PF_R, PAGE, PAGE, 0, PAGE),
        phdr(PF_R, 2 * PAGE, PAGE, 2 * PAGE, PAGE),
    ];
    let mut segs = translate(&image, &phdrs, 0);
    sort_segments(&mut segs);
    assert!(check_overlap(&segs).is_ok());
    for pair in segs.windows(2) {
        assert!(pair[0].vpage + pair[0].pages.len() / PAGE <= pair[1].vpage);
    }
}

#[test]
fn overlapping_headers_trigger_the_defect() {
    let image = vec![7u8; 2 * PAGE];
    let phdrs = vec![
        phdr(PF_R, 0, PAGE, 3 * PAGE, 2 * PAGE),
        phdr(PF_R, PAGE, PAGE, 4 * PAGE, PAGE),
    ];
    let mut segs = translate(&image, &phdrs, 0);
    sort_segments(&mut segs);
    assert_eq!(check_overlap(&segs), Err(Error::OverlappingSegments));
}

#[test]
fn measurement_is_deterministic() {
    let pages = vec![0x5au8; 2 * PAGE];
    let mut digests = Vec::new();
    for _ in 0..2 {
        let mut h = Hasher::new(1 << 20, 2);
        h.load(&pages, 0, rwx_info(), true).unwrap();
        h.load(&pages, 2, rwx_info(), false).unwrap();
        digests.push(h.finish());
    }
    assert_eq!(digests[0], digests[1]);
    assert_eq!(digests[0].len(), 32);
}

#[test]
fn measurement_depends_on_offsets() {
    let pages = vec![0x5au8; PAGE];
    let mut a = Hasher::new(1 << 20, 2);
    a.load(&pages, 0, rwx_info(), true).unwrap();
    let mut b = Hasher::new(1 << 20, 2);
    b.load(&pages, 1, rwx_info(), true).unwrap();
    assert_ne!(a.finish(), b.finish());
}

#[test]
fn partial_page_is_refused() {
    let mut h = Hasher::new(1 << 20, 1);
    let r = h.load(&vec![0u8; 100], 0, rwx_info(), true);
    assert_eq!(r, Err(Error::InvalidSegmentSize));
}

#[test]
fn measurement_matches_reference_hasher() {
    let pages = vec![0x11u8; PAGE];
    let mut ours = Hasher::new(1 << 20, 2);
    ours.load(&pages, 3, rwx_info(), true).unwrap();
    let digest = ours.finish();

    let mut reference = sgx::signature::Hasher::<sgx::crypto::openssl::S256Digest>::new(
        1 << 20,
        NonZeroU32::new(2).unwrap(),
    );
    let flags = sgx::page::Flags::READ | sgx::page::Flags::WRITE | sgx::page::Flags::EXECUTE;
    reference
        .load(&pages, 3 * PAGE, sgx::page::Class::Regular.info(flags), true)
        .unwrap();
    assert_eq!(digest.as_slice(), reference.finish().as_ref());
}

fn sample_images() -> (Image, Image) {
    let mut shim_bytes = vec![0u8; 2 * PAGE];
    shim_bytes[..PAGE].fill(0xaa);
    shim_bytes[PAGE..].fill(0xbb);
    let shim = Image {
        bytes: shim_bytes,
        phdrs: vec![
            phdr(PF_R | PF_X, 0, PAGE, 0, PAGE),
            phdr(PF_R | PF_SGX_TCS, PAGE, PAGE, PAGE, PAGE),
        ],
    };
    let code = Image {
        bytes: vec![0xcc; PAGE],
        phdrs: vec![phdr(PF_R | PF_W, 0, PAGE, 0, PAGE)],
    };
    (shim, code)
}

#[test]
fn keep_build_produces_signed_plan() {
    let (shim, code) = sample_images();
    let plan = build_keep(&shim, &code, 2 * PAGE, 4 * PAGE, 20, 2).unwrap();

    assert_eq!(plan.size, 1 << 20);
    assert_eq!(plan.ssap, 2);
    assert_eq!(plan.mrenclave.len(), 32);

    // Sorted, disjoint, whole-page operations.
    let offsets: Vec<usize> = plan.adds.iter().map(|a: &AddPages| a.offset).collect();
    assert_eq!(offsets, vec![0, PAGE, 2 * PAGE]);
    for a in plan.adds.iter() {
        assert_eq!(a.length % PAGE, 0);
        assert_eq!(a.count(), 0);
        assert_eq!(a.flags, if a.measured { 1 } else { 0 });
    }
    assert_eq!(plan.adds[1].info.class, PageClass::ThreadControl);
    assert_eq!(plan.adds[2].data, vec![0xcc; PAGE]);

    // The plan's measurement is the digest of exactly the plan's own
    // operations, in order: recompute it against the reference hasher.
    let mut reference = sgx::signature::Hasher::<sgx::crypto::openssl::S256Digest>::new(
        1 << 20,
        NonZeroU32::new(2).unwrap(),
    );
    for a in plan.adds.iter() {
        let info = match a.info.class {
            PageClass::ThreadControl => sgx::page::SecInfo::from(sgx::page::Class::Tcs),
            PageClass::Regular => {
                let mut f = sgx::page::Flags::empty();
                if a.info.read {
                    f |= sgx::page::Flags::READ;
                }
                if a.info.write {
                    f |= sgx::page::Flags::WRITE;
                }
                if a.info.execute {
                    f |= sgx::page::Flags::EXECUTE;
                }
                sgx::page::Class::Regular.info(f)
            }
        };
        reference.load(&a.data, a.offset, info, a.measured).unwrap();
    }
    assert_eq!(plan.mrenclave.as_slice(), reference.finish().as_ref());
}

#[test]
fn keep_build_is_deterministic() {
    // Two builds of byte-identical images measure identically, bit for bit;
    // only the ephemeral signing key differs between them.
    let (shim_a, code_a) = sample_images();
    let (shim_b, code_b) = sample_images();
    let plan_a = build_keep(&shim_a, &code_a, 2 * PAGE, 4 * PAGE, 20, 2).unwrap();
    let plan_b = build_keep(&shim_b, &code_b, 2 * PAGE, 4 * PAGE, 20, 2).unwrap();
    assert_eq!(plan_a.mrenclave, plan_b.mrenclave);
}

#[test]
fn keep_spawns_one_thread_per_tcs_page() {
    let (shim, code) = sample_images();
    let plan = build_keep(&shim, &code, 2 * PAGE, 4 * PAGE, 20, 2).unwrap();
    let mut enclave = Enclave::from_plan(&plan);

    let t = enclave.spawn().expect("one thread-control page");
    assert_eq!(t.tcs, 1);
    assert_eq!(t.cssa, 0);
    assert_eq!(t.how, Entry::Enter);
    assert!(enclave.spawn().is_none());
}

#[test]
fn oversized_payload_is_refused() {
    let (shim, _) = sample_images();
    let code = Image {
        bytes: vec![0xcc; PAGE],
        phdrs: vec![phdr(PF_R | PF_W, 0, PAGE, 0, 10 * PAGE)],
    };
    let r = build_keep(&shim, &code, 2 * PAGE, 4 * PAGE, 20, 2);
    assert_eq!(r.err(), Some(Error::CodeTooLarge));
}
