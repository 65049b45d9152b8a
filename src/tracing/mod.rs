//! Precise collection on the heap: word classification and descriptors.
use vstd::prelude::*;

mod boehm_traced_impls;

pub use boehm_traced_impls::{
    array_step_words, discriminant_is_word, lemma_array_spans, lemma_handle_marks_first,
    lemma_ref_cell_drops_last, lemma_scalars_mark_nothing,
};

verus! {

/// A word as the collector understands it (`GC_word`, an `unsigned long`).
pub type GcWord = libc::c_ulong;

/// The number of bits in a collector word.
pub open spec fn gc_wordsz() -> nat {
    8 * vstd::layout::size_of::<GcWord>()
}

/// Bit `k` of the word `w`.
pub open spec fn word_bit(w: GcWord, k: GcWord) -> bool {
    (w >> k) & 1 == 1
}

/// Bit `index` of a packed bitmap: bit `index % 64` of block `index / 64`.
pub open spec fn packed_bit(bm: Seq<GcWord>, index: int) -> bool {
    word_bit(bm[index / 64], (index % 64) as GcWord)
}

/// The size of the words understood by the collector, in bits.
pub fn GC_WORDSZ() -> (r: usize)
    ensures
        r == gc_wordsz(),
        r == 64,
{
    proof {
        broadcast use vstd::layout::layout_of_primitives;
    }
    8 * core::mem::size_of::<GcWord>()
}

/// Reads bit `index` of the packed bitmap `bm`.
pub fn GC_get_bit(bm: &[GcWord], index: usize) -> (r: bool)
    requires
        index / 64 < bm@.len(),
    ensures
        r == packed_bit(bm@, index as int),
{
    let wrd_sz = GC_WORDSZ();
    ((bm[index / wrd_sz] >> (index % wrd_sz) as GcWord) & 1) == 1
}

proof fn lemma_set_word_bit(w: GcWord, k: GcWord, j: GcWord)
    requires
        k < 64,
        j < 64,
    ensures
        word_bit(w | ((1 as GcWord) << k), j) == (word_bit(w, j) || j == k),
{
    assert(((w | (1u64 << k)) >> j) & 1 == 1 <==> ((w >> j) & 1 == 1 || j == k)) by (bit_vector)
        requires
            k < 64,
            j < 64,
    ;
}

/// Sets bit `index` of the packed bitmap `bm`, leaving every other bit.
pub fn GC_set_bit(bm: &mut [GcWord], index: usize)
    requires
        index / 64 < old(bm)@.len(),
    ensures
        final(bm)@.len() == old(bm)@.len(),
        forall|i: int|
            0 <= i < 64 * old(bm)@.len() ==> #[trigger] packed_bit(final(bm)@, i) == (
            packed_bit(old(bm)@, i) || i == index),
{
    let wrd_sz = GC_WORDSZ();
    let w = index / wrd_sz;
    let k = (index % wrd_sz) as GcWord;
    let ghost before = bm@;
    bm[w] = bm[w] | (1 << k);
    assert forall|i: int| 0 <= i < 64 * before.len() implies #[trigger] packed_bit(bm@, i) == (
    packed_bit(before, i) || i == index) by {
        if i / 64 == w as int {
            lemma_set_word_bit(before[w as int], k, (i % 64) as GcWord);
        }
    }
}

/// The number of whole collector words in a `T`.
pub fn GC_WORD_LEN<T>() -> (r: usize)
    ensures
        r == vstd::layout::size_of::<T>() / vstd::layout::size_of::<GcWord>(),
        r == vstd::layout::size_of::<T>() / 8,
        r <= usize::MAX / 8,
{
    proof {
        broadcast use vstd::layout::layout_of_primitives;
    }
    core::mem::size_of::<T>() / core::mem::size_of::<GcWord>()
}

/// The number of collector words a bitmap of one bit per word of a `T`
/// takes.
pub fn GC_BITMAP_SIZE<T>() -> (r: usize)
    ensures
        r == (vstd::layout::size_of::<T>() / 8 + 63) / 64,
{
    let word_len = GC_WORD_LEN::<T>();
    let wrd_sz = GC_WORDSZ();
    (word_len + wrd_sz - 1) / wrd_sz
}

/// Whether the packed blocks `blocks` hold exactly the bitmap `bitmap`:
/// bit `i` is set for each `true` entry `i`, and no other bit is set.
pub open spec fn packs(blocks: Seq<GcWord>, bitmap: Seq<bool>) -> bool {
    &&& bitmap.len() <= 64 * blocks.len()
    &&& forall|i: int|
        0 <= i < 64 * blocks.len() ==> #[trigger] packed_bit(blocks, i) == (i < bitmap.len()
            && bitmap[i])
}

/// The number of blocks a bitmap of `len` entries is packed into: two for
/// short bitmaps, else as many as the bits need.
pub open spec fn packed_len(len: nat) -> nat {
    if len < 128 {
        2
    } else {
        (len + 63) / 64
    }
}

/// Where the blocks of a packed bitmap live: short bitmaps in two words
/// held inline, longer ones in a vector.
pub enum PackedBlocks {
    Inline([GcWord; 2]),
    Heap(Vec<GcWord>),
}

/// A word-classification bitmap packed one bit per entry, in the form
/// that the collector's descriptor compiler (`GC_make_descriptor`) takes:
/// the blocks, and the number of entries.
pub struct PackedBitmap {
    pub blocks: PackedBlocks,
    pub bit_len: usize,
}

impl PackedBitmap {
    /// The packed blocks, whichever way they are held.
    pub open spec fn blocks_view(&self) -> Seq<GcWord> {
        match self.blocks {
            PackedBlocks::Inline(a) => a@,
            PackedBlocks::Heap(v) => v@,
        }
    }

    /// The packed blocks, to hand to the descriptor compiler.
    pub fn blocks(&self) -> (r: &[GcWord])
        ensures
            r@ == self.blocks_view(),
    {
        match &self.blocks {
            PackedBlocks::Inline(a) => a.as_slice(),
            PackedBlocks::Heap(v) => v.as_slice(),
        }
    }

    /// The number of bitmap entries packed.
    pub fn bit_len(&self) -> (r: usize)
        ensures
            r == self.bit_len,
    {
        self.bit_len
    }
}

proof fn lemma_zero_word_bits(k: GcWord)
    requires
        k < 64,
    ensures
        !word_bit(0, k),
{
    assert((0u64 >> k) & 1 != 1) by (bit_vector)
        requires
            k < 64,
    ;
}

/// Packs `bitmap` into `blocks`, which hold no set bit on entry.
fn pack_into(bitmap: &[bool], blocks: &mut [GcWord])
    requires
        bitmap@.len() <= 64 * old(blocks)@.len(),
        forall|i: int| 0 <= i < 64 * old(blocks)@.len() ==> !#[trigger] packed_bit(old(blocks)@, i),
    ensures
        final(blocks)@.len() == old(blocks)@.len(),
        packs(final(blocks)@, bitmap@),
{
    let ghost n = blocks@.len();
    let mut word_idx: usize = 0;
    while word_idx < bitmap.len()
        invariant
            blocks@.len() == n,
            bitmap@.len() <= 64 * n,
            word_idx <= bitmap@.len(),
            forall|i: int|
                0 <= i < 64 * n ==> #[trigger] packed_bit(blocks@, i) == (i < word_idx
                    && bitmap@[i]),
        decreases bitmap@.len() - word_idx,
    {
        if bitmap[word_idx] {
            assert(word_idx / 64 < n) by (nonlinear_arith)
                requires
                    word_idx < 64 * n,
            ;
            GC_set_bit(blocks, word_idx);
        }
        word_idx += 1;
    }
}

/// Packs `bitmap`, which is `true` for each word that may hold a pointer,
/// into the blocks from which the collector compiles a type descriptor:
/// bit `i` of the result is set exactly when `bitmap[i]` is. Bitmaps of
/// fewer than two words' worth of entries are packed into two inline
/// words, longer ones into a vector of exactly the words they need.
pub fn make_descriptor(bitmap: &[bool]) -> (r: PackedBitmap)
    ensures
        r.bit_len == bitmap@.len(),
        r.blocks_view().len() == packed_len(bitmap@.len()),
        (r.blocks is Inline) == (bitmap@.len() < 128),
        packs(r.blocks_view(), bitmap@),
{
    let wrd_sz = GC_WORDSZ();
    let l = bitmap.len();
    if l < wrd_sz * 2 {
        let mut compressed: [GcWord; 2] = [0, 0];
        assert forall|i: int| 0 <= i < 128 implies !#[trigger] packed_bit(compressed@, i) by {
            lemma_zero_word_bits((i % 64) as GcWord);
        }
        pack_into(bitmap, &mut compressed);
        PackedBitmap { blocks: PackedBlocks::Inline(compressed), bit_len: l }
    } else {
        let n = (l - 1) / wrd_sz + 1;
        assert(n == (l + 63) / 64 && l <= 64 * n);
        let mut compressed: Vec<GcWord> = vec![0; n];
        assert forall|i: int| 0 <= i < 64 * n implies !#[trigger] packed_bit(compressed@, i) by {
            assert(i / 64 < n) by (nonlinear_arith)
                requires
                    0 <= i < 64 * n,
            ;
            lemma_zero_word_bits((i % 64) as GcWord);
        }
        pack_into(bitmap, compressed.as_mut_slice());
        PackedBitmap { blocks: PackedBlocks::Heap(compressed), bit_len: l }
    }
}

/// A handle on one collector allocation of a `T` that the collector scans
/// precisely, by `T`'s descriptor. It holds the allocation's address;
/// when the allocation is reclaimed is up to the collector alone, so
/// dropping a handle releases nothing.
pub struct GcTracing<T> {
    addr: usize,
    marker: core::marker::PhantomData<T>,
}

impl<T> Clone for GcTracing<T> {
    /// Another handle on the same allocation.
    fn clone(&self) -> (r: Self)
        ensures
            r == *self,
    {
        proof {
            use_type_invariant(self);
        }
        GcTracing { addr: self.addr, marker: core::marker::PhantomData }
    }
}

impl<T> Copy for GcTracing<T> {

}

impl<T> View for GcTracing<T> {
    type V = usize;

    closed spec fn view(&self) -> usize {
        self.addr
    }
}

impl<T> GcTracing<T> {
    #[verifier::type_invariant]
    closed spec fn non_null(&self) -> bool {
        self.addr != 0
    }

    /// Wraps the address that the collector's typed allocation returned.
    /// A null address means the collector is out of memory: no handle is
    /// made for it.
    pub fn from_addr(addr: usize) -> (r: Option<Self>)
        ensures
            r is None <==> addr == 0,
            r matches Some(h) ==> h@ == addr,
    {
        if addr == 0 {
            None
        } else {
            Some(GcTracing { addr, marker: core::marker::PhantomData })
        }
    }

    /// The address of the allocation, never null.
    pub fn addr(&self) -> (r: usize)
        ensures
            r == self@,
            r != 0,
    {
        proof {
            use_type_invariant(self);
        }
        self.addr
    }
}

/// The classification of `words` by `T`: an entry is set afterwards when
/// it was set before or `T` marks it. This is what
/// `BoehmTraced::indicate_ptr_words` leaves in its buffer.
pub open spec fn classified<T: BoehmTraced>(words: Seq<bool>) -> Seq<bool> {
    Seq::new(words.len(), |i: int| words[i] || T::marks(words.len(), i))
}

/// A buffer of `len` words, none of them marked.
pub open spec fn unmarked(len: nat) -> Seq<bool> {
    Seq::new(len, |_i: int| false)
}

/// The number of collector words in a `T`.
pub open spec fn descr_word_len<T>() -> nat {
    8 * vstd::layout::size_of::<T>() / gc_wordsz()
}

/// The length of the buffer that a `T` is classified into when its
/// descriptor is made: at least sixteen words.
pub open spec fn descr_buffer_len<T>() -> nat {
    if descr_word_len::<T>() < 16 {
        16
    } else {
        descr_word_len::<T>()
    }
}

/// Values that the collector can scan precisely.
///
/// An implementation tells which words of the type's representation may
/// hold a pointer into collected memory. It only ever marks words: the
/// rest of the buffer is left as it was, so a type can classify the
/// words of a member that starts at any offset inside it.
pub trait BoehmTraced: Sized {
    /// Whether the type can classify a buffer of `len` words.
    spec fn accepts(len: nat) -> bool;

    /// Whether classifying a buffer of `len` words marks word `i`.
    spec fn marks(len: nat, i: int) -> bool;

    /// The packed bitmap from which the collector compiles the descriptor
    /// of `Self`: the type's words, classified in a buffer of at least
    /// sixteen words. `dummy` only names the type.
    fn get_tracing_descr(dummy: Option<Self>) -> (r: PackedBitmap)
        requires
            8 * vstd::layout::size_of::<Self>() <= usize::MAX,
            Self::accepts(descr_buffer_len::<Self>()),
        ensures
            r.bit_len == descr_word_len::<Self>(),
            r.blocks_view().len() == packed_len(descr_word_len::<Self>()),
            packs(
                r.blocks_view(),
                Seq::new(
                    descr_word_len::<Self>(),
                    |i: int| Self::marks(descr_buffer_len::<Self>(), i),
                ),
            ),
    {
        let sz = core::mem::size_of::<Self>() * 8;
        let wrd_sz = GC_WORDSZ();
        let num_words = sz / wrd_sz;
        if num_words < 16 {
            let mut vec: [bool; 16] = vstd::array::array_fill_for_copy_types(false);
            proof {
                broadcast use vstd::array::group_array_axioms;
            }
            assert(vec@ =~= unmarked(16));
            Self::indicate_ptr_words(dummy, &mut vec);
            let used = &vec[0..num_words];
            assert(used@ =~= Seq::new(num_words as nat, |i: int| Self::marks(16, i)));
            make_descriptor(used)
        } else {
            let mut vec: Vec<bool> = vec![false; num_words];
            Self::indicate_ptr_words(dummy, vec.as_mut_slice());
            assert(vec@ =~= Seq::new(num_words as nat, |i: int| Self::marks(num_words as nat, i)));
            make_descriptor(vec.as_slice())
        }
    }

    /// Marks the words of `Self` that may hold a pointer into collected
    /// memory, and leaves every other entry of `words` as it was. `words`
    /// starts at the first word of a `Self`; `dummy` only names the type.
    fn indicate_ptr_words(dummy: Option<Self>, words: &mut [bool])
        requires
            Self::accepts(old(words)@.len()),
        ensures
            final(words)@ == Seq::new(
                old(words)@.len(),
                |i: int| old(words)@[i] || Self::marks(old(words)@.len(), i),
            ),
    ;
}

/// A word with none of its 64 bits set is zero.
proof fn lemma_word_without_bits(b: GcWord)
    requires
        !word_bit(b, 0),
        !word_bit(b, 1),
        !word_bit(b, 2),
        !word_bit(b, 3),
        !word_bit(b, 4),
        !word_bit(b, 5),
        !word_bit(b, 6),
        !word_bit(b, 7),
        !word_bit(b, 8),
        !word_bit(b, 9),
        !word_bit(b, 10),
        !word_bit(b, 11),
        !word_bit(b, 12),
        !word_bit(b, 13),
        !word_bit(b, 14),
        !word_bit(b, 15),
        !word_bit(b, 16),
        !word_bit(b, 17),
        !word_bit(b, 18),
        !word_bit(b, 19),
        !word_bit(b, 20),
        !word_bit(b, 21),
        !word_bit(b, 22),
        !word_bit(b, 23),
        !word_bit(b, 24),
        !word_bit(b, 25),
        !word_bit(b, 26),
        !word_bit(b, 27),
        !word_bit(b, 28),
        !word_bit(b, 29),
        !word_bit(b, 30),
        !word_bit(b, 31),
        !word_bit(b, 32),
        !word_bit(b, 33),
        !word_bit(b, 34),
        !word_bit(b, 35),
        !word_bit(b, 36),
        !word_bit(b, 37),
        !word_bit(b, 38),
        !word_bit(b, 39),
        !word_bit(b, 40),
        !word_bit(b, 41),
        !word_bit(b, 42),
        !word_bit(b, 43),
        !word_bit(b, 44),
        !word_bit(b, 45),
        !word_bit(b, 46),
        !word_bit(b, 47),
        !word_bit(b, 48),
        !word_bit(b, 49),
        !word_bit(b, 50),
        !word_bit(b, 51),
        !word_bit(b, 52),
        !word_bit(b, 53),
        !word_bit(b, 54),
        !word_bit(b, 55),
        !word_bit(b, 56),
        !word_bit(b, 57),
        !word_bit(b, 58),
        !word_bit(b, 59),
        !word_bit(b, 60),
        !word_bit(b, 61),
        !word_bit(b, 62),
        !word_bit(b, 63),
    ensures
        b == 0,
{
    assert(b == 0) by (bit_vector)
        requires
                (b >> 0u64) & 1 != 1,
                (b >> 1u64) & 1 != 1,
                (b >> 2u64) & 1 != 1,
                (b >> 3u64) & 1 != 1,
                (b >> 4u64) & 1 != 1,
                (b >> 5u64) & 1 != 1,
                (b >> 6u64) & 1 != 1,
                (b >> 7u64) & 1 != 1,
                (b >> 8u64) & 1 != 1,
                (b >> 9u64) & 1 != 1,
                (b >> 10u64) & 1 != 1,
                (b >> 11u64) & 1 != 1,
                (b >> 12u64) & 1 != 1,
                (b >> 13u64) & 1 != 1,
                (b >> 14u64) & 1 != 1,
                (b >> 15u64) & 1 != 1,
                (b >> 16u64) & 1 != 1,
                (b >> 17u64) & 1 != 1,
                (b >> 18u64) & 1 != 1,
                (b >> 19u64) & 1 != 1,
                (b >> 20u64) & 1 != 1,
                (b >> 21u64) & 1 != 1,
                (b >> 22u64) & 1 != 1,
                (b >> 23u64) & 1 != 1,
                (b >> 24u64) & 1 != 1,
                (b >> 25u64) & 1 != 1,
                (b >> 26u64) & 1 != 1,
                (b >> 27u64) & 1 != 1,
                (b >> 28u64) & 1 != 1,
                (b >> 29u64) & 1 != 1,
                (b >> 30u64) & 1 != 1,
                (b >> 31u64) & 1 != 1,
                (b >> 32u64) & 1 != 1,
                (b >> 33u64) & 1 != 1,
                (b >> 34u64) & 1 != 1,
                (b >> 35u64) & 1 != 1,
                (b >> 36u64) & 1 != 1,
                (b >> 37u64) & 1 != 1,
                (b >> 38u64) & 1 != 1,
                (b >> 39u64) & 1 != 1,
                (b >> 40u64) & 1 != 1,
                (b >> 41u64) & 1 != 1,
                (b >> 42u64) & 1 != 1,
                (b >> 43u64) & 1 != 1,
                (b >> 44u64) & 1 != 1,
                (b >> 45u64) & 1 != 1,
                (b >> 46u64) & 1 != 1,
                (b >> 47u64) & 1 != 1,
                (b >> 48u64) & 1 != 1,
                (b >> 49u64) & 1 != 1,
                (b >> 50u64) & 1 != 1,
                (b >> 51u64) & 1 != 1,
                (b >> 52u64) & 1 != 1,
                (b >> 53u64) & 1 != 1,
                (b >> 54u64) & 1 != 1,
                (b >> 55u64) & 1 != 1,
                (b >> 56u64) & 1 != 1,
                (b >> 57u64) & 1 != 1,
                (b >> 58u64) & 1 != 1,
                (b >> 59u64) & 1 != 1,
                (b >> 60u64) & 1 != 1,
                (b >> 61u64) & 1 != 1,
                (b >> 62u64) & 1 != 1,
                (b >> 63u64) & 1 != 1,
    ;
}

/// Packing a bitmap with no entry set gives blocks that are all zero: a
/// descriptor compiled from them lets the collector trace nothing in the
/// allocation.
pub proof fn lemma_unmarked_packs_to_zero(blocks: Seq<GcWord>, len: nat)
    requires
        packs(blocks, unmarked(len)),
    ensures
        forall|w: int| 0 <= w < blocks.len() ==> #[trigger] blocks[w] == 0,
{
    assert forall|w: int| 0 <= w < blocks.len() implies #[trigger] blocks[w] == 0 by {
        let b = blocks[w];
        assert forall|k: GcWord| k < 64 implies !word_bit(b, k) by {
            let i = 64 * w + k as int;
            assert(0 <= i < 64 * blocks.len()) by (nonlinear_arith)
                requires
                    0 <= w < blocks.len(),
                    0 <= k < 64,
                    i == 64 * w + k,
            ;
            assert(i / 64 == w && i % 64 == k as int) by (nonlinear_arith)
                requires
                    0 <= w,
                    0 <= k < 64,
                    i == 64 * w + k,
            ;
            assert(!packed_bit(blocks, i));
        }
        lemma_word_without_bits(b);
    }
}

} // verus!
