use std::cell::RefCell;

use boehm::tracing::{
    make_descriptor, BoehmTraced, GcTracing, PackedBlocks, GC_BITMAP_SIZE, GC_WORDSZ,
    GC_WORD_LEN, GC_get_bit, GC_set_bit,
};
use boehm::Gc;

#[test]
fn word_size_is_sixty_four_bits() {
    assert_eq!(GC_WORDSZ(), 64);
}

#[test]
fn word_len_counts_whole_words() {
    assert_eq!(GC_WORD_LEN::<u64>(), 1);
    assert_eq!(GC_WORD_LEN::<[u64; 3]>(), 3);
    assert_eq!(GC_WORD_LEN::<u32>(), 0);
    assert_eq!(GC_WORD_LEN::<[u8; 17]>(), 2);
}

#[test]
fn bitmap_size_rounds_up() {
    assert_eq!(GC_BITMAP_SIZE::<()>(), 0);
    assert_eq!(GC_BITMAP_SIZE::<u64>(), 1);
    assert_eq!(GC_BITMAP_SIZE::<[u64; 64]>(), 1);
    assert_eq!(GC_BITMAP_SIZE::<[u64; 65]>(), 2);
}

#[test]
fn set_bit_then_get_bit() {
    let mut bm = vec![0u64; 3];
    GC_set_bit(&mut bm, 0);
    GC_set_bit(&mut bm, 65);
    GC_set_bit(&mut bm, 191);
    assert_eq!(bm, vec![1, 2, 1u64 << 63]);
    assert!(GC_get_bit(&bm, 0));
    assert!(GC_get_bit(&bm, 65));
    assert!(GC_get_bit(&bm, 191));
    assert!(!GC_get_bit(&bm, 1));
    assert!(!GC_get_bit(&bm, 64));
    GC_set_bit(&mut bm, 65);
    assert_eq!(bm, vec![1, 2, 1u64 << 63]);
}

#[test]
fn empty_bitmap_packs_inline() {
    let p = make_descriptor(&[]);
    assert_eq!(p.bit_len(), 0);
    assert_eq!(p.blocks(), &[0, 0]);
    assert!(matches!(p.blocks, PackedBlocks::Inline(_)));
}

#[test]
fn short_bitmap_packs_bits_in_order() {
    let p = make_descriptor(&[true, false, true]);
    assert_eq!(p.bit_len(), 3);
    assert_eq!(p.blocks(), &[5, 0]);
    let mut bits = vec![false; 127];
    bits[64] = true;
    bits[126] = true;
    let p = make_descriptor(&bits);
    assert!(matches!(p.blocks, PackedBlocks::Inline(_)));
    assert_eq!(p.blocks(), &[0, 1 | (1u64 << 62)]);
}

#[test]
fn long_bitmap_packs_into_exact_words() {
    let bits: Vec<bool> = (0..128).map(|i| i % 2 == 0).collect();
    let p = make_descriptor(&bits);
    assert!(matches!(p.blocks, PackedBlocks::Heap(_)));
    assert_eq!(p.bit_len(), 128);
    assert_eq!(p.blocks(), &[0x5555_5555_5555_5555, 0x5555_5555_5555_5555]);
    let mut bits = vec![false; 130];
    bits[129] = true;
    let p = make_descriptor(&bits);
    assert_eq!(p.blocks(), &[0, 0, 2]);
    for i in 0..192 {
        assert_eq!(GC_get_bit(p.blocks(), i), i == 129);
    }
}

#[test]
fn unmarked_bitmap_packs_to_zero() {
    for len in [0usize, 1, 100, 127, 128, 200, 1000] {
        let p = make_descriptor(&vec![false; len]);
        assert!(p.blocks().iter().all(|&w| w == 0));
        assert_eq!(p.bit_len(), len);
    }
}

#[test]
fn descriptor_of_handle_marks_its_word() {
    let p = <GcTracing<u64> as BoehmTraced>::get_tracing_descr(None);
    assert_eq!(p.bit_len(), 1);
    assert_eq!(p.blocks(), &[1, 0]);
}

#[test]
fn descriptor_of_scalar_is_empty() {
    let p = <u64 as BoehmTraced>::get_tracing_descr(None);
    assert_eq!(p.bit_len(), 1);
    assert_eq!(p.blocks(), &[0, 0]);
    let p = <() as BoehmTraced>::get_tracing_descr(None);
    assert_eq!(p.bit_len(), 0);
    assert_eq!(p.blocks(), &[0, 0]);
}

#[test]
fn descriptor_of_ref_cell_of_handle() {
    let p = <RefCell<GcTracing<u64>> as BoehmTraced>::get_tracing_descr(None);
    assert_eq!(p.bit_len(), 2);
    assert_eq!(p.blocks(), &[1, 0]);
}

#[test]
fn descriptor_of_long_arrays() {
    let p = <[GcTracing<u64>; 100] as BoehmTraced>::get_tracing_descr(None);
    assert_eq!(p.bit_len(), 100);
    assert!(matches!(p.blocks, PackedBlocks::Inline(_)));
    assert_eq!(p.blocks(), &[u64::MAX, (1u64 << 36) - 1]);
    let p = <[u64; 1000] as BoehmTraced>::get_tracing_descr(None);
    assert_eq!(p.bit_len(), 1000);
    assert!(matches!(p.blocks, PackedBlocks::Heap(_)));
    assert_eq!(p.blocks().len(), 16);
    assert!(p.blocks().iter().all(|&w| w == 0));
}

#[test]
fn null_address_gives_no_handle() {
    assert!(Gc::<u64>::from_addr(0).is_none());
    assert!(GcTracing::<u64>::from_addr(0).is_none());
}

#[test]
fn handles_keep_their_address() {
    let g = Gc::<u64>::from_addr(0x1000).unwrap();
    assert_eq!(g.addr(), 0x1000);
    assert_eq!(g.clone().addr(), 0x1000);
    let t = GcTracing::<u64>::from_addr(0x2008).unwrap();
    let u = t;
    assert_eq!(t.addr(), 0x2008);
    assert_eq!(u.clone().addr(), 0x2008);
    assert_eq!(std::mem::size_of::<GcTracing<u64>>(), 8);
}
