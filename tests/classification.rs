use std::cell::RefCell;

use boehm::tracing::{BoehmTraced, GcTracing};

fn classify<T: BoehmTraced>(len: usize) -> Vec<bool> {
    let mut words = vec![false; len];
    T::indicate_ptr_words(None, &mut words);
    words
}

#[test]
fn scalars_leave_words_unmarked() {
    let none = vec![false; 8];
    assert_eq!(classify::<isize>(8), none);
    assert_eq!(classify::<i8>(8), none);
    assert_eq!(classify::<i16>(8), none);
    assert_eq!(classify::<i32>(8), none);
    assert_eq!(classify::<i64>(8), none);
    assert_eq!(classify::<usize>(8), none);
    assert_eq!(classify::<u8>(8), none);
    assert_eq!(classify::<u16>(8), none);
    assert_eq!(classify::<u32>(8), none);
    assert_eq!(classify::<u64>(8), none);
    assert_eq!(classify::<()>(8), none);
    assert_eq!(classify::<u64>(0), Vec::<bool>::new());
}

#[test]
fn scalars_keep_marked_words() {
    let mut words = vec![true, false, true];
    <u32 as BoehmTraced>::indicate_ptr_words(None, &mut words);
    assert_eq!(words, vec![true, false, true]);
}

#[test]
fn handle_marks_only_first_word() {
    assert_eq!(classify::<GcTracing<u64>>(1), vec![true]);
    let mut expected = vec![false; 5];
    expected[0] = true;
    assert_eq!(classify::<GcTracing<u64>>(5), expected);
    let mut expected = vec![false; 16];
    expected[0] = true;
    assert_eq!(classify::<GcTracing<()>>(16), expected);
}

#[test]
fn ref_cell_leaves_last_word() {
    assert_eq!(classify::<RefCell<GcTracing<u64>>>(3), vec![true, false, false]);
    assert_eq!(classify::<RefCell<u64>>(2), vec![false, false]);
    assert_eq!(classify::<RefCell<()>>(1), vec![false]);
    // an element that marks every word it is given still leaves the last
    let mut inner = classify::<[GcTracing<u64>; 4]>(4);
    assert_eq!(inner, vec![true; 4]);
    inner.push(false);
    assert_eq!(classify::<RefCell<[GcTracing<u64>; 4]>>(5), inner);
}

#[test]
fn option_with_word_discriminant_skips_it() {
    // a handle holds a plain address, so the option needs a discriminant word
    assert_eq!(std::mem::size_of::<Option<GcTracing<u64>>>(), 16);
    assert_eq!(classify::<Option<GcTracing<u64>>>(2), vec![false, true]);
}

#[test]
fn option_with_small_discriminant_is_unshifted() {
    assert_eq!(classify::<Option<u8>>(1), vec![false]);
    assert_eq!(classify::<Option<u64>>(2), vec![false, false]);
    assert_eq!(
        classify::<Option<Option<GcTracing<u64>>>>(3),
        classify::<Option<GcTracing<u64>>>(3)
    );
}

#[test]
fn arrays_of_scalars_mark_nothing() {
    assert_eq!(classify::<[u64; 1]>(1), vec![false]);
    assert_eq!(classify::<[u64; 4]>(4), vec![false; 4]);
    assert_eq!(classify::<[u64; 100]>(100), vec![false; 100]);
    assert_eq!(classify::<[u64; 0]>(2), vec![false; 2]);
}

#[test]
fn arrays_of_handles_mark_every_span() {
    for n in [1usize, 4, 100] {
        let words = match n {
            1 => classify::<[GcTracing<u64>; 1]>(n + 3),
            4 => classify::<[GcTracing<u64>; 4]>(n + 3),
            _ => classify::<[GcTracing<u64>; 100]>(n + 3),
        };
        let span = classify::<GcTracing<u64>>(1);
        for k in 0..n {
            assert_eq!(words[k..k + 1].to_vec(), span);
        }
        assert_eq!(words[n..].to_vec(), vec![false; 3]);
    }
}

#[test]
fn arrays_of_two_word_elements_split_evenly() {
    // each element is a handle and a plain word, so spans are two words long
    let words = classify::<[RefCell<GcTracing<u64>>; 4]>(8);
    assert_eq!(words, vec![true, false, true, false, true, false, true, false]);
}

#[test]
fn small_words_below_a_word_are_not_split() {
    // four bytes per element: less than a word each, so nothing is marked
    assert_eq!(classify::<[u32; 4]>(2), vec![false, false]);
}
