//! The classifications of the builtin types.
use vstd::prelude::*;

use super::{
    classified, gc_wordsz, unmarked, BoehmTraced, GcTracing, GC_WORDSZ,
};

verus! {

/// `RefCell` is carried as an opaque type: its classification depends on
/// its layout only, never on what it holds.
#[verifier::external_type_specification]
#[verifier::external_body]
#[verifier::reject_recursive_types(T)]
pub struct ExRefCell<T: ?Sized>(core::cell::RefCell<T>);

// A handle is one word, and that word is a pointer the collector follows.
impl<T> BoehmTraced for GcTracing<T> {
    open spec fn accepts(len: nat) -> bool {
        len >= 1
    }

    open spec fn marks(len: nat, i: int) -> bool {
        i == 0
    }

    fn indicate_ptr_words(_dummy: Option<GcTracing<T>>, words: &mut [bool]) {
        let ghost before = words@;
        words[0] = true;
        assert(words@ =~= Seq::new(before.len(), |i: int| before[i] || Self::marks(before.len(), i)));
    }
}

// Types that hold no pointer at all. Floating-point numbers and raw
// pointers hold none either, but have no implementation here: a type with
// such a field classifies that word itself, by leaving it unmarked.

impl BoehmTraced for isize {
    open spec fn accepts(len: nat) -> bool {
        true
    }

    open spec fn marks(len: nat, i: int) -> bool {
        false
    }

    fn indicate_ptr_words(_dummy: Option<isize>, words: &mut [bool]) {
        assert(Seq::new(words@.len(), |i: int| words@[i] || Self::marks(words@.len(), i)) =~= words@);
    }
}

impl BoehmTraced for i8 {
    open spec fn accepts(len: nat) -> bool {
        true
    }

    open spec fn marks(len: nat, i: int) -> bool {
        false
    }

    fn indicate_ptr_words(_dummy: Option<i8>, words: &mut [bool]) {
        assert(Seq::new(words@.len(), |i: int| words@[i] || Self::marks(words@.len(), i)) =~= words@);
    }
}

impl BoehmTraced for i16 {
    open spec fn accepts(len: nat) -> bool {
        true
    }

    open spec fn marks(len: nat, i: int) -> bool {
        false
    }

    fn indicate_ptr_words(_dummy: Option<i16>, words: &mut [bool]) {
        assert(Seq::new(words@.len(), |i: int| words@[i] || Self::marks(words@.len(), i)) =~= words@);
    }
}

impl BoehmTraced for i32 {
    open spec fn accepts(len: nat) -> bool {
        true
    }

    open spec fn marks(len: nat, i: int) -> bool {
        false
    }

    fn indicate_ptr_words(_dummy: Option<i32>, words: &mut [bool]) {
        assert(Seq::new(words@.len(), |i: int| words@[i] || Self::marks(words@.len(), i)) =~= words@);
    }
}

impl BoehmTraced for i64 {
    open spec fn accepts(len: nat) -> bool {
        true
    }

    open spec fn marks(len: nat, i: int) -> bool {
        false
    }

    fn indicate_ptr_words(_dummy: Option<i64>, words: &mut [bool]) {
        assert(Seq::new(words@.len(), |i: int| words@[i] || Self::marks(words@.len(), i)) =~= words@);
    }
}

impl BoehmTraced for usize {
    open spec fn accepts(len: nat) -> bool {
        true
    }

    open spec fn marks(len: nat, i: int) -> bool {
        false
    }

    fn indicate_ptr_words(_dummy: Option<usize>, words: &mut [bool]) {
        assert(Seq::new(words@.len(), |i: int| words@[i] || Self::marks(words@.len(), i)) =~= words@);
    }
}

impl BoehmTraced for u8 {
    open spec fn accepts(len: nat) -> bool {
        true
    }

    open spec fn marks(len: nat, i: int) -> bool {
        false
    }

    fn indicate_ptr_words(_dummy: Option<u8>, words: &mut [bool]) {
        assert(Seq::new(words@.len(), |i: int| words@[i] || Self::marks(words@.len(), i)) =~= words@);
    }
}

impl BoehmTraced for u16 {
    open spec fn accepts(len: nat) -> bool {
        true
    }

    open spec fn marks(len: nat, i: int) -> bool {
        false
    }

    fn indicate_ptr_words(_dummy: Option<u16>, words: &mut [bool]) {
        assert(Seq::new(words@.len(), |i: int| words@[i] || Self::marks(words@.len(), i)) =~= words@);
    }
}

impl BoehmTraced for u32 {
    open spec fn accepts(len: nat) -> bool {
        true
    }

    open spec fn marks(len: nat, i: int) -> bool {
        false
    }

    fn indicate_ptr_words(_dummy: Option<u32>, words: &mut [bool]) {
        assert(Seq::new(words@.len(), |i: int| words@[i] || Self::marks(words@.len(), i)) =~= words@);
    }
}

impl BoehmTraced for u64 {
    open spec fn accepts(len: nat) -> bool {
        true
    }

    open spec fn marks(len: nat, i: int) -> bool {
        false
    }

    fn indicate_ptr_words(_dummy: Option<u64>, words: &mut [bool]) {
        assert(Seq::new(words@.len(), |i: int| words@[i] || Self::marks(words@.len(), i)) =~= words@);
    }
}

impl BoehmTraced for () {
    open spec fn accepts(len: nat) -> bool {
        true
    }

    open spec fn marks(len: nat, i: int) -> bool {
        false
    }

    fn indicate_ptr_words(_dummy: Option<()>, words: &mut [bool]) {
        assert(Seq::new(words@.len(), |i: int| words@[i] || Self::marks(words@.len(), i)) =~= words@);
    }
}

// Interior mutability: the last word holds the borrow state, which is no
// pointer and no part of the `T`.
impl<T: BoehmTraced> BoehmTraced for core::cell::RefCell<T> {
    open spec fn accepts(len: nat) -> bool {
        len >= 1 && T::accepts((len - 1) as nat)
    }

    open spec fn marks(len: nat, i: int) -> bool {
        i < len - 1 && T::marks((len - 1) as nat, i)
    }

    fn indicate_ptr_words(_dummy: Option<core::cell::RefCell<T>>, words: &mut [bool]) {
        let ghost before = words@;
        let l = words.len();
        let (head, _last) = words.split_at_mut(l - 1);
        T::indicate_ptr_words(None, head);
        assert(words@ =~= Seq::new(before.len(), |i: int| before[i] || Self::marks(before.len(), i)));
    }
}

/// Whether `Option<T>` adds at least a whole collector word to `T`: then
/// the discriminant takes the first word and the `T` follows it.
pub open spec fn discriminant_is_word<T>() -> bool {
    (vstd::layout::size_of::<Option<T>>() - vstd::layout::size_of::<T>()) * 8 >= gc_wordsz()
}

// With a discriminant of a word or more, the `T` follows it. Otherwise the
// option is taken to be a nullable pointer, or a small value without any
// pointer, and the `T` starts at the first word. The second case is a
// guess about the layout that can be wrong for other types.
impl<T: BoehmTraced> BoehmTraced for Option<T> {
    open spec fn accepts(len: nat) -> bool {
        if discriminant_is_word::<T>() {
            len >= 1 && T::accepts((len - 1) as nat)
        } else {
            T::accepts(len)
        }
    }

    open spec fn marks(len: nat, i: int) -> bool {
        if discriminant_is_word::<T>() {
            1 <= i && T::marks((len - 1) as nat, i - 1)
        } else {
            T::marks(len, i)
        }
    }

    fn indicate_ptr_words(_dummy: Option<Option<T>>, words: &mut [bool]) {
        proof {
            broadcast use vstd::layout::layout_of_primitives;
        }
        let ghost before = words@;
        let discr_size = core::mem::size_of::<Option<T>>().saturating_sub(
            core::mem::size_of::<T>(),
        );
        if discr_size >= GC_WORDSZ() / 8 {
            let (_discr, rest) = words.split_at_mut(1);
            T::indicate_ptr_words(None, rest);
            assert(words@ =~= Seq::new(before.len(), |i: int| before[i] || Self::marks(before.len(), i)));
        } else {
            T::indicate_ptr_words(None, words);
            assert(words@ =~= Seq::new(before.len(), |i: int| before[i] || Self::marks(before.len(), i)));
        }
    }
}

/// The number of words of each element of a `[T; N]`, as the size of the
/// array divided among its elements gives it.
pub open spec fn array_step_words<T, const N: usize>() -> nat {
    if N == 0 {
        0
    } else {
        (8 * vstd::layout::size_of::<[T; N]>() / (N as nat)) / gc_wordsz()
    }
}

/// Classifies `words`, which hold `n` elements of `step` words each, one
/// element at a time.
fn indicate_spans<T: BoehmTraced>(words: &mut [bool], step: usize, n: usize)
    requires
        step > 0,
        old(words)@.len() == step * n,
        T::accepts(step as nat),
    ensures
        final(words)@ == Seq::new(
            old(words)@.len(),
            |i: int| old(words)@[i] || T::marks(step as nat, i % (step as int)),
        ),
    decreases n,
{
    let ghost before = words@;
    if n == 0 {
        assert(words@ =~= Seq::new(
            before.len(),
            |i: int| before[i] || T::marks(step as nat, i % (step as int)),
        ));
    } else {
        assert(step * n == step + step * (n - 1)) by (nonlinear_arith);
        let (first, rest) = words.split_at_mut(step);
        T::indicate_ptr_words(None, first);
        indicate_spans::<T>(rest, step, n - 1);
        assert forall|i: int| 0 <= i < before.len() implies #[trigger] words@[i] == (before[i]
            || T::marks(step as nat, i % (step as int))) by {
            if i < step {
                vstd::arithmetic::div_mod::lemma_small_mod(i as nat, step as nat);
            } else {
                vstd::arithmetic::div_mod::lemma_mod_sub_multiples_vanish(i, step as int);
            }
        }
        assert(words@ =~= Seq::new(
            before.len(),
            |i: int| before[i] || T::marks(step as nat, i % (step as int)),
        ));
    }
}

// A fixed-length array is its elements one after the other: its words are
// split into `N` equal spans, each classified as a `T`. The element size
// is taken to be a whole number of words.
impl<T: BoehmTraced, const N: usize> BoehmTraced for [T; N] {
    open spec fn accepts(len: nat) -> bool {
        N == 0 || (8 * vstd::layout::size_of::<[T; N]>() <= usize::MAX && (array_step_words::<T, N>()
            == 0 || (array_step_words::<T, N>() * N <= len && T::accepts(array_step_words::<T, N>()))))
    }

    open spec fn marks(len: nat, i: int) -> bool {
        &&& N > 0
        &&& array_step_words::<T, N>() > 0
        &&& 0 <= i < array_step_words::<T, N>() * N
        &&& T::marks(array_step_words::<T, N>(), i % (array_step_words::<T, N>() as int))
    }

    fn indicate_ptr_words(_dummy: Option<[T; N]>, words: &mut [bool]) {
        proof {
            broadcast use vstd::layout::layout_of_primitives;
        }
        let ghost before = words@;
        if N == 0 {
            assert(words@ =~= Seq::new(before.len(), |i: int| before[i] || Self::marks(before.len(), i)));
            return;
        }
        let bits_per_step = 8 * core::mem::size_of::<[T; N]>() / N;
        let words_per_step = bits_per_step / GC_WORDSZ();
        assert(words_per_step == array_step_words::<T, N>());
        if words_per_step > 0 {
            let l = words.len();
            assert(words_per_step * N <= l);
            let (spans, _rest) = words.split_at_mut(words_per_step * N);
            indicate_spans::<T>(spans, words_per_step, N);
            assert(words@ =~= Seq::new(before.len(), |i: int| before[i] || Self::marks(before.len(), i)));
        } else {
            assert(words@ =~= Seq::new(before.len(), |i: int| before[i] || Self::marks(before.len(), i)));
        }
    }
}

/// Classifying a fresh buffer as any builtin type without pointers
/// (the integers and `()`) leaves every word unmarked.
pub proof fn lemma_scalars_mark_nothing(len: nat)
    ensures
        classified::<isize>(unmarked(len)) == unmarked(len),
        classified::<i8>(unmarked(len)) == unmarked(len),
        classified::<i16>(unmarked(len)) == unmarked(len),
        classified::<i32>(unmarked(len)) == unmarked(len),
        classified::<i64>(unmarked(len)) == unmarked(len),
        classified::<usize>(unmarked(len)) == unmarked(len),
        classified::<u8>(unmarked(len)) == unmarked(len),
        classified::<u16>(unmarked(len)) == unmarked(len),
        classified::<u32>(unmarked(len)) == unmarked(len),
        classified::<u64>(unmarked(len)) == unmarked(len),
        classified::<()>(unmarked(len)) == unmarked(len),
{
    assert(classified::<isize>(unmarked(len)) =~= unmarked(len));
    assert(classified::<i8>(unmarked(len)) =~= unmarked(len));
    assert(classified::<i16>(unmarked(len)) =~= unmarked(len));
    assert(classified::<i32>(unmarked(len)) =~= unmarked(len));
    assert(classified::<i64>(unmarked(len)) =~= unmarked(len));
    assert(classified::<usize>(unmarked(len)) =~= unmarked(len));
    assert(classified::<u8>(unmarked(len)) =~= unmarked(len));
    assert(classified::<u16>(unmarked(len)) =~= unmarked(len));
    assert(classified::<u32>(unmarked(len)) =~= unmarked(len));
    assert(classified::<u64>(unmarked(len)) =~= unmarked(len));
    assert(classified::<()>(unmarked(len)) =~= unmarked(len));
}

/// Classifying a fresh buffer of any non-zero length as a precise handle
/// marks the first word and no other.
pub proof fn lemma_handle_marks_first<T>(len: nat)
    requires
        len >= 1,
    ensures
        classified::<GcTracing<T>>(unmarked(len)) == unmarked(len).update(0, true),
{
    assert(classified::<GcTracing<T>>(unmarked(len)) =~= unmarked(len).update(0, true));
}

/// Classifying a fresh buffer as a `RefCell<T>` leaves the last word
/// unmarked and marks the words before it as `T` marks a buffer of their
/// length.
pub proof fn lemma_ref_cell_drops_last<T: BoehmTraced>(len: nat)
    requires
        len >= 1,
    ensures
        classified::<core::cell::RefCell<T>>(unmarked(len)) == classified::<T>(
            unmarked((len - 1) as nat),
        ).push(false),
{
    assert(classified::<core::cell::RefCell<T>>(unmarked(len)) =~= classified::<T>(
        unmarked((len - 1) as nat),
    ).push(false));
}

/// Classifying a fresh buffer as a `[T; N]` splits the array's words into
/// `N` equal spans, one per element: span `k` is marked as `T` marks a
/// fresh buffer of one element's words, and no word after the spans is
/// marked.
pub proof fn lemma_array_spans<T: BoehmTraced, const N: usize>(len: nat, k: int)
    requires
        0 <= k < N,
        array_step_words::<T, N>() > 0,
        array_step_words::<T, N>() * N <= len,
    ensures
        ({
            let step = array_step_words::<T, N>() as int;
            let words = classified::<[T; N]>(unmarked(len));
            &&& words.subrange(k * step, (k + 1) * step) == classified::<T>(unmarked(step as nat))
            &&& forall|i: int| step * N <= i < len ==> !#[trigger] words[i]
        }),
{
    let step = array_step_words::<T, N>() as int;
    let words = classified::<[T; N]>(unmarked(len));
    assert(k * step + step <= step * N && (k + 1) * step == k * step + step) by (nonlinear_arith)
        requires
            0 <= k < N,
            step > 0,
    ;
    assert(0 <= k * step) by (nonlinear_arith)
        requires
            0 <= k,
            step > 0,
    ;
    assert forall|j: int| 0 <= j < step implies #[trigger] words.subrange(
        k * step,
        (k + 1) * step,
    )[j] == classified::<T>(unmarked(step as nat))[j] by {
        let i = k * step + j;
        vstd::arithmetic::div_mod::lemma_mod_multiples_vanish(k, j, step);
        vstd::arithmetic::div_mod::lemma_small_mod(j as nat, step as nat);
        assert(i % step == j);
        assert(words[i] == T::marks(step as nat, j));
    }
    assert(words.subrange(k * step, (k + 1) * step) =~= classified::<T>(unmarked(step as nat)));
}

} // verus!
