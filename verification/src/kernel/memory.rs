//! Physical page allocator: one shared bitmap split into per-hart partitions,
//! plus the kernel image layout that the rest of the kernel consults.
use vstd::prelude::*;
use vstd::string::*;
use crate::drivers::uart::{self, crlf, dec_text, hex_text, line_bytes};
use crate::platform::{HART_SLOTS, RAM_SIZE, RAM_START};

verus! {

pub const PAGE_SIZE: u64 = 4096;

/// 512 words of 64 bits = 32768 pages = 128 MiB from the start of free memory.
pub const BITMAP_WORDS: usize = 512;

pub const BITMAP_BITS: usize = 32768;

pub const WORDS_PER_HART: usize = 64;

pub const BITS_PER_HART: usize = 4096;

/// `u64::is_power_of_two`: true exactly when the value is `2^k` for some `k`.
pub assume_specification[ u64::is_power_of_two ](x: u64) -> (r: bool)
    ensures
        r == (exists|k: u64| k < 64 && x == 1u64 << k),
;

/// Rounds `value` up to a multiple of `align`; `None` when `align` is not a
/// power of two or the rounding overflows.
pub(crate) fn align_up(value: u64, align: u64) -> (r: Option<u64>)
    ensures
        r == align_up_spec(value as int, align as int),
{
    if align == 0 || !align.is_power_of_two() {
        proof {
            if align != 0 {
                assert(!is_pow2_u64(align));
            }
        }
        return None;
    }
    proof {
        assert(is_pow2_u64(align));
    }
    let bumped = match value.checked_add(align - 1) {
        Some(b) => b,
        None => return None,
    };
    let r = bumped & !(align - 1);
    proof {
        let k = choose|k: u64| k < 64 && align == 1u64 << k;
        lemma_round_down_pow2(bumped, k);
        lemma_round_up_unique(value as int, align as int, r as int);
    }
    Some(r)
}

/// `x` is `2^k` for some `k < 64`.
pub open spec fn is_pow2_u64(x: u64) -> bool {
    exists|k: u64| k < 64 && x == 1u64 << k
}

/// The least multiple of `align` that is `>= value`, when it fits in a `u64`.
pub open spec fn align_up_spec(value: int, align: int) -> Option<u64> {
    if align <= 0 || !is_pow2_u64(align as u64) {
        None
    } else if value + align - 1 > u64::MAX {
        None
    } else {
        Some(((value + align - 1) - (value + align - 1) % align) as u64)
    }
}

proof fn lemma_round_down_pow2(x: u64, k: u64)
    requires
        k < 64,
    ensures
        (x & !(((1u64 << k) - 1) as u64)) as int == x as int - (x as int) % ((1u64 << k) as int),
{
    vstd::bits::lemma_u64_pow2_no_overflow(k as nat);
    vstd::arithmetic::power2::lemma_pow2_pos(k as nat);
    vstd::bits::lemma_u64_shl_is_mul(1, k);
    let m: u64 = ((1u64 << k) - 1) as u64;
    assert(m == vstd::bits::low_bits_mask(k as nat) as u64);
    vstd::bits::lemma_u64_low_bits_mask_is_mod(x, k as nat);
    assert((x & !m) + (x & m) == x) by (bit_vector);
}

proof fn lemma_round_up_unique(value: int, align: int, r: int)
    requires
        align > 0,
        r == (value + align - 1) - (value + align - 1) % align,
    ensures
        r % align == 0,
        value <= r < value + align,
{
    let x = value + align - 1;
    assert(x == align * (x / align) + x % align) by (nonlinear_arith)
        requires
            align > 0,
    ;
    assert(r == align * (x / align));
    assert((align * (x / align)) % align == 0) by (nonlinear_arith)
        requires
            align > 0,
    ;
}

} // verus!

verus! {

/// `true` when bit `i` of `w` is set.
pub open spec fn bit_of(w: u64, i: int) -> bool {
    (w >> (i as u64)) & 1u64 == 1u64
}

/// Number of `true` entries of `s`.
pub open spec fn count_true(s: Seq<bool>) -> nat
    decreases s.len(),
{
    if s.len() == 0 {
        0
    } else {
        count_true(s.drop_last()) + if s.last() {
            1nat
        } else {
            0nat
        }
    }
}

/// `[s, s + n)` lies inside `m` and every page in it is free.
pub open spec fn is_free_run(m: Seq<bool>, s: int, n: int) -> bool {
    &&& 0 <= s
    &&& s + n <= m.len()
    &&& forall|i: int| s <= i < s + n ==> !m[i]
}

/// `s` starts the lowest free run of `n` pages in `m`.
pub open spec fn is_first_free_run(m: Seq<bool>, s: int, n: int) -> bool {
    &&& is_free_run(m, s, n)
    &&& forall|t: int| 0 <= t < s ==> !is_free_run(m, t, n as int)
}

/// First-fit placement of `n` pages in `m`.
pub open spec fn first_fit(m: Seq<bool>, n: int) -> Option<int> {
    if exists|s: int| is_first_free_run(m, s, n) {
        Some(choose|s: int| is_first_free_run(m, s, n))
    } else {
        None
    }
}

/// `m` with `[s, s + n)` set to `v`.
pub open spec fn set_run(m: Seq<bool>, s: int, n: int, v: bool) -> Seq<bool> {
    Seq::new(m.len(), |i: int| if s <= i < s + n { v } else { m[i] })
}

/// Abstract state of one hart's page pool: the address of its first page, how
/// many pages it manages, the in-use map, and the use counters.
pub struct PoolView {
    pub base: int,
    pub valid_bits: int,
    pub used: int,
    pub high_water: int,
    pub map: Seq<bool>,
}

/// Invariant of the abstract pools.
pub open spec fn pool_wf(p: PoolView) -> bool {
    &&& 0 <= p.valid_bits <= BITS_PER_HART
    &&& p.map.len() == p.valid_bits
    &&& p.used == count_true(p.map)
    &&& p.used <= p.high_water <= p.valid_bits
    &&& 0 <= p.base
    &&& p.base % (PAGE_SIZE as int) == 0
    &&& p.base + p.valid_bits * (PAGE_SIZE as int) <= u64::MAX
}

pub open spec fn pools_wf(v: Seq<PoolView>) -> bool {
    &&& v.len() == HART_SLOTS
    &&& forall|h: int| 0 <= h < HART_SLOTS ==> #[trigger] pool_wf(v[h])
}

/// Result of allocating `n` pages from pool `p`: the first page index and the
/// new pool, or `None` when the request is refused.
pub open spec fn alloc_outcome(p: PoolView, n: int) -> Option<(int, PoolView)> {
    if n <= 0 || p.base == 0 || p.valid_bits == 0 || n > p.valid_bits {
        None
    } else {
        match first_fit(p.map, n) {
            None => None,
            Some(s) => Some(
                (
                    s,
                    PoolView {
                        base: p.base,
                        valid_bits: p.valid_bits,
                        used: p.used + n,
                        high_water: if p.used + n > p.high_water {
                            p.used + n
                        } else {
                            p.high_water
                        },
                        map: set_run(p.map, s, n, true),
                    },
                ),
            ),
        }
    }
}

/// Result of freeing `n` pages at `addr` in pool `p`, or `None` when the
/// request does not name `n` in-use pages of this pool (it is then ignored).
pub open spec fn free_outcome(p: PoolView, addr: int, n: int) -> Option<PoolView> {
    if n == 0 || p.base == 0 || addr < p.base || addr % (PAGE_SIZE as int) != 0 {
        None
    } else {
        let s = (addr - p.base) / (PAGE_SIZE as int);
        if s >= p.valid_bits || s + n > p.valid_bits {
            None
        } else if exists|i: int| s <= i < s + n && !p.map[i] {
            None
        } else {
            Some(
                PoolView {
                    base: p.base,
                    valid_bits: p.valid_bits,
                    used: p.used - n,
                    high_water: p.high_water,
                    map: set_run(p.map, s, n, false),
                },
            )
        }
    }
}

/// Physical page base. 4 KiB aligned.
#[derive(Clone, Copy, Debug, PartialEq, Eq)]
pub struct PhysPage {
    addr: u64,
}

impl PhysPage {
    pub closed spec fn view(&self) -> u64 {
        self.addr
    }

    pub fn addr(self) -> (r: u64)
        ensures
            r == self@,
    {
        self.addr
    }

    pub fn new(addr: u64) -> (r: Option<Self>)
        ensures
            r is Some <==> addr % PAGE_SIZE == 0,
            r matches Some(p) ==> p@ == addr,
    {
        if addr.is_multiple_of(PAGE_SIZE) {
            Some(Self { addr })
        } else {
            None
        }
    }
}

/// Page counts for the managed pool across all harts.
#[derive(Clone, Copy, Debug, PartialEq, Eq)]
pub struct MmStats {
    pub free: u64,
    pub used: u64,
    pub high_water: u64,
}

#[derive(Clone, Copy)]
struct MmHart {
    base_page_addr: u64,
    word_offset: usize,
    valid_bits: usize,
    used: u64,
    high_water: u64,
}

impl MmHart {
    fn empty(word_offset: usize) -> (r: Self)
        ensures
            r.base_page_addr == 0,
            r.word_offset == word_offset,
            r.valid_bits == 0,
            r.used == 0,
            r.high_water == 0,
    {
        MmHart { base_page_addr: 0, word_offset, valid_bits: 0, used: 0, high_water: 0 }
    }
}

/// The shared page bitmap and the per-hart partition records.
pub struct PageAllocator {
    words: Vec<u64>,
    harts: Vec<MmHart>,
}

impl PageAllocator {
    spec fn hart_map(self, h: int) -> Seq<bool> {
        let mh = self.harts@[h];
        Seq::new(
            mh.valid_bits as nat,
            |b: int| bit_of(self.words@[mh.word_offset + b / 64], b % 64),
        )
    }

    /// One abstract pool per hart slot.
    pub closed spec fn view(&self) -> Seq<PoolView> {
        Seq::new(
            HART_SLOTS as nat,
            |h: int|
                PoolView {
                    base: self.harts@[h].base_page_addr as int,
                    valid_bits: self.harts@[h].valid_bits as int,
                    used: self.harts@[h].used as int,
                    high_water: self.harts@[h].high_water as int,
                    map: self.hart_map(h),
                },
        )
    }

    pub closed spec fn layout_ok(&self) -> bool {
        &&& self.words@.len() == BITMAP_WORDS
        &&& self.harts@.len() == HART_SLOTS
        &&& forall|h: int|
            0 <= h < HART_SLOTS ==> {
                &&& #[trigger] self.harts@[h].word_offset == WORDS_PER_HART * h
                &&& self.harts@[h].valid_bits <= BITS_PER_HART
            }
    }

    /// Well-formedness: partitions are disjoint word ranges and each pool's
    /// counters agree with its map.
    pub open spec fn wf(&self) -> bool {
        &&& self.layout_ok()
        &&& pools_wf(self@)
    }

    /// An allocator whose pools are all empty; [`init`] partitions memory.
    pub fn new() -> (r: Self)
        ensures
            r.wf(),
            forall|h: int|
                0 <= h < HART_SLOTS ==> #[trigger] r@[h].base == 0 && r@[h].valid_bits == 0,
    {
        let mut words: Vec<u64> = Vec::new();
        let mut i: usize = 0;
        while i < BITMAP_WORDS
            invariant
                i <= BITMAP_WORDS,
                words@.len() == i,
            decreases BITMAP_WORDS - i,
        {
            words.push(0);
            i = i + 1;
        }
        let mut harts: Vec<MmHart> = Vec::new();
        let mut h: usize = 0;
        while h < HART_SLOTS
            invariant
                h <= HART_SLOTS,
                harts@.len() == h,
                forall|j: int|
                    0 <= j < h ==> {
                        &&& #[trigger] harts@[j].word_offset == WORDS_PER_HART * j
                        &&& harts@[j].valid_bits == 0
                        &&& harts@[j].base_page_addr == 0
                        &&& harts@[j].used == 0
                        &&& harts@[j].high_water == 0
                    },
            decreases HART_SLOTS - h,
        {
            harts.push(MmHart::empty(h * WORDS_PER_HART));
            h = h + 1;
        }
        let r = PageAllocator { words, harts };
        proof {
            assert forall|h: int| 0 <= h < HART_SLOTS implies #[trigger] pool_wf(r@[h]) by {
                assert(r@[h].map =~= Seq::<bool>::empty());
            }
        }
        r
    }
}

} // verus!

verus! {

/// Bits `[0, valid)` of the partition starting at word `off`.
pub open spec fn bits_map(words: Seq<u64>, off: int, valid: int) -> Seq<bool> {
    Seq::new(valid as nat, |b: int| bit_of(words[off + b / 64], b % 64))
}

proof fn lemma_bit_or(w: u64, j: u64)
    requires
        j < 64,
    ensures
        forall|k: int|
            0 <= k < 64 ==> #[trigger] bit_of(w | (1u64 << j), k) == (k == j || bit_of(w, k)),
{
    assert forall|k: int| 0 <= k < 64 implies #[trigger] bit_of(w | (1u64 << j), k) == (k == j
        || bit_of(w, k)) by {
        let ku = k as u64;
        assert(((w | (1u64 << j)) >> ku) & 1u64 == 1u64 <==> (ku == j || (w >> ku) & 1u64 == 1u64))
            by (bit_vector)
            requires
                j < 64,
                ku < 64,
        ;
    }
}

proof fn lemma_bit_clear(w: u64, j: u64)
    requires
        j < 64,
    ensures
        forall|k: int|
            0 <= k < 64 ==> #[trigger] bit_of(w & !(1u64 << j), k) == (k != j && bit_of(w, k)),
{
    assert forall|k: int| 0 <= k < 64 implies #[trigger] bit_of(w & !(1u64 << j), k) == (k != j
        && bit_of(w, k)) by {
        let ku = k as u64;
        assert(((w & !(1u64 << j)) >> ku) & 1u64 == 1u64 <==> (ku != j && (w >> ku) & 1u64 == 1u64))
            by (bit_vector)
            requires
                j < 64,
                ku < 64,
        ;
    }
}

proof fn lemma_bit_test(w: u64, j: u64)
    requires
        j < 64,
    ensures
        ((w & (1u64 << j)) != 0) == bit_of(w, j as int),
{
    assert(((w & (1u64 << j)) != 0) == ((w >> j) & 1u64 == 1u64)) by (bit_vector)
        requires
            j < 64,
    ;
}

proof fn lemma_count_update(s: Seq<bool>, i: int, v: bool)
    requires
        0 <= i < s.len(),
    ensures
        count_true(s.update(i, v)) == count_true(s) - (if s[i] {
            1int
        } else {
            0int
        }) + (if v {
            1int
        } else {
            0int
        }),
    decreases s.len(),
{
    if i == s.len() - 1 {
        assert(s.update(i, v).drop_last() =~= s.drop_last());
    } else {
        lemma_count_update(s.drop_last(), i, v);
        assert(s.update(i, v).drop_last() =~= s.drop_last().update(i, v));
    }
}

proof fn lemma_count_le_len(s: Seq<bool>)
    ensures
        count_true(s) <= s.len(),
    decreases s.len(),
{
    if s.len() > 0 {
        lemma_count_le_len(s.drop_last());
    }
}

proof fn lemma_count_all_false(n: nat)
    ensures
        count_true(Seq::new(n, |i: int| false)) == 0,
    decreases n,
{
    if n > 0 {
        lemma_count_all_false((n - 1) as nat);
        assert(Seq::new(n, |i: int| false).drop_last() =~= Seq::new((n - 1) as nat, |i: int| false));
    }
}

proof fn lemma_first_fit_unique(m: Seq<bool>, s: int, n: int)
    requires
        is_first_free_run(m, s, n),
    ensures
        first_fit(m, n) == Some(s),
{
    let c = choose|t: int| is_first_free_run(m, t, n);
    assert(is_first_free_run(m, c, n));
    if c < s {
        assert(!is_free_run(m, c, n));
    }
    if s < c {
        assert(!is_free_run(m, s, n));
    }
}

proof fn lemma_first_fit_none(m: Seq<bool>, n: int)
    requires
        forall|t: int| 0 <= t && t + n <= m.len() ==> !is_free_run(m, t, n as int),
    ensures
        first_fit(m, n) is None,
{
    if exists|s: int| is_first_free_run(m, s, n) {
        let c = choose|t: int| is_first_free_run(m, t, n);
        assert(is_free_run(m, c, n));
    }
}

impl PageAllocator {
    proof fn lemma_hart_map_is_bits_map(&self, h: int)
        requires
            self.layout_ok(),
            0 <= h < HART_SLOTS,
        ensures
            self.hart_map(h) == bits_map(
                self.words@,
                WORDS_PER_HART * h,
                self.harts@[h].valid_bits as int,
            ),
    {
        assert(self.harts@[h].word_offset == WORDS_PER_HART * h);
        assert(self.hart_map(h) =~= bits_map(
            self.words@,
            WORDS_PER_HART * h,
            self.harts@[h].valid_bits as int,
        ));
    }

    /// After a change of bit `bit` of hart `h` to `v`, that hart's map changes
    /// in that one place and every other hart's map is untouched.
    proof fn lemma_map_after_bit_change(a: &Self, b: &Self, h: int, bit: int, v: bool)
        requires
            a.layout_ok(),
            b.words@.len() == a.words@.len(),
            b.harts@ == a.harts@,
            0 <= h < HART_SLOTS,
            0 <= bit < a.harts@[h].valid_bits,
            forall|i: int, k: int|
                0 <= i < a.words@.len() && 0 <= k < 64 ==> #[trigger] bit_of(b.words@[i], k) == if i
                    == WORDS_PER_HART * h + bit / 64 && k == bit % 64 {
                    v
                } else {
                    bit_of(a.words@[i], k)
                },
        ensures
            b.hart_map(h) == a.hart_map(h).update(bit, v),
            forall|h2: int| 0 <= h2 < HART_SLOTS && h2 != h ==> b.hart_map(h2) == a.hart_map(h2),
    {
        assert(a.harts@[h].word_offset == WORDS_PER_HART * h);
        let off = WORDS_PER_HART * h;
        assert forall|x: int| 0 <= x < a.harts@[h].valid_bits implies b.hart_map(h)[x]
            == a.hart_map(h).update(bit, v)[x] by {
            assert(bit_of(b.words@[off + x / 64], x % 64) == if off + x / 64 == off + bit / 64 && x
                % 64 == bit % 64 {
                v
            } else {
                bit_of(a.words@[off + x / 64], x % 64)
            });
        }
        assert(b.hart_map(h) =~= a.hart_map(h).update(bit, v));
        assert forall|h2: int| 0 <= h2 < HART_SLOTS && h2 != h implies b.hart_map(h2) == a.hart_map(
            h2,
        ) by {
            assert(a.harts@[h2].word_offset == WORDS_PER_HART * h2);
            let off2 = WORDS_PER_HART * h2;
            assert forall|x: int| 0 <= x < a.harts@[h2].valid_bits implies b.hart_map(h2)[x]
                == a.hart_map(h2)[x] by {
                assert(bit_of(b.words@[off2 + x / 64], x % 64) == bit_of(
                    a.words@[off2 + x / 64],
                    x % 64,
                ));
            }
            assert(b.hart_map(h2) =~= a.hart_map(h2));
        }
    }

    fn test_partition_bit(&self, word_offset: usize, bit: usize) -> (r: bool)
        requires
            self.words@.len() == BITMAP_WORDS,
            word_offset + bit / 64 < self.words@.len(),
        ensures
            r == bit_of(self.words@[word_offset + bit / 64], (bit % 64) as int),
    {
        let w = self.words[word_offset + bit / 64];
        let j = (bit % 64) as u64;
        let mask = 1u64 << j;
        proof {
            lemma_bit_test(w, j);
        }
        (w & mask) != 0
    }

    fn set_partition_bit(&mut self, word_offset: usize, bit: usize)
        requires
            old(self).words@.len() == BITMAP_WORDS,
            word_offset + bit / 64 < old(self).words@.len(),
        ensures
            final(self).harts@ == old(self).harts@,
            final(self).words@.len() == old(self).words@.len(),
            forall|i: int, k: int|
                0 <= i < old(self).words@.len() && 0 <= k < 64 ==> #[trigger] bit_of(
                    final(self).words@[i],
                    k,
                ) == if i == word_offset + bit / 64 && k == bit % 64 {
                    true
                } else {
                    bit_of(old(self).words@[i], k)
                },
    {
        let idx = word_offset + bit / 64;
        let j = (bit % 64) as u64;
        let w = self.words[idx];
        proof {
            lemma_bit_or(w, j);
        }
        self.words.set(idx, w | (1u64 << j));
    }

    fn clear_partition_bit(&mut self, word_offset: usize, bit: usize)
        requires
            old(self).words@.len() == BITMAP_WORDS,
            word_offset + bit / 64 < old(self).words@.len(),
        ensures
            final(self).harts@ == old(self).harts@,
            final(self).words@.len() == old(self).words@.len(),
            forall|i: int, k: int|
                0 <= i < old(self).words@.len() && 0 <= k < 64 ==> #[trigger] bit_of(
                    final(self).words@[i],
                    k,
                ) == if i == word_offset + bit / 64 && k == bit % 64 {
                    false
                } else {
                    bit_of(old(self).words@[i], k)
                },
    {
        let idx = word_offset + bit / 64;
        let j = (bit % 64) as u64;
        let w = self.words[idx];
        proof {
            lemma_bit_clear(w, j);
        }
        self.words.set(idx, w & !(1u64 << j));
    }

    /// First-fit search for `n` free pages among the first `valid_bits` bits
    /// of the partition at `word_offset`; `None` for `n == 0`.
    fn find_free_run(&self, word_offset: usize, valid_bits: usize, n: usize) -> (r: Option<usize>)
        requires
            valid_bits <= BITS_PER_HART,
            word_offset + WORDS_PER_HART <= self.words@.len(),
            self.words@.len() == BITMAP_WORDS,
        ensures
            r == (if n == 0 {
                None::<usize>
            } else {
                match first_fit(bits_map(self.words@, word_offset as int, valid_bits as int), n as int) {
                    Some(s) => Some(s as usize),
                    None => None::<usize>,
                }
            }),
            r matches Some(s) ==> s + n <= valid_bits,
    {
        if n == 0 {
            return None;
        }
        let ghost m = bits_map(self.words@, word_offset as int, valid_bits as int);
        let mut run: usize = 0;
        let mut run_start: usize = 0;
        let mut bit: usize = 0;
        while bit < valid_bits
            invariant
                n >= 1,
                valid_bits <= BITS_PER_HART,
                word_offset + WORDS_PER_HART <= self.words@.len(),
                self.words@.len() == BITMAP_WORDS,
                m == bits_map(self.words@, word_offset as int, valid_bits as int),
                bit <= valid_bits,
                run <= bit,
                run < n,
                run > 0 ==> run_start == bit - run,
                forall|i: int| bit - run <= i < bit ==> !m[i],
                run < bit ==> m[bit - run - 1],
                forall|t: int| 0 <= t && t + n <= bit ==> !is_free_run(m, t, n as int),
            decreases valid_bits - bit,
        {
            let set = self.test_partition_bit(word_offset, bit);
            assert(set == m[bit as int]);
            if set {
                proof {
                    assert forall|t: int| 0 <= t && t + n <= bit + 1 implies !is_free_run(m, t, n as int) by {
                        if t + n == bit + 1 {
                            assert(m[bit as int]);
                        }
                    }
                }
                run = 0;
                bit = bit + 1;
                continue;
            }
            if run == 0 {
                run_start = bit;
            }
            run = run + 1;
            if run == n {
                proof {
                    assert(is_free_run(m, run_start as int, n as int));
                    assert(is_first_free_run(m, run_start as int, n as int));
                    lemma_first_fit_unique(m, run_start as int, n as int);
                }
                return Some(run_start);
            }
            proof {
                assert forall|t: int| 0 <= t && t + n <= bit + 1 implies !is_free_run(m, t, n as int) by {
                    if t + n == bit + 1 {
                        assert(m[bit + 1 - run - 1]);
                    }
                }
            }
            bit = bit + 1;
        }
        proof {
            lemma_first_fit_none(m, n as int);
        }
        None
    }
}

} // verus!

verus! {

/// Allocate `n` consecutive pages from `hart`'s partition (first fit).
pub fn alloc_pages(mm: &mut PageAllocator, hart: usize, n: usize) -> (r: Option<PhysPage>)
    requires
        old(mm).wf(),
        hart < HART_SLOTS,
    ensures
        final(mm).wf(),
        match alloc_outcome(old(mm)@[hart as int], n as int) {
            None => r is None && final(mm)@ == old(mm)@,
            Some((s, np)) => r matches Some(p) && p@ == old(mm)@[hart as int].base + s
                * PAGE_SIZE && final(mm)@ == old(mm)@.update(hart as int, np),
        },
{
    let ghost old_mm = *mm;
    let ghost pool = old_mm@[hart as int];
    proof {
        assert(pool_wf(old_mm@[hart as int]));
        assert(old_mm.harts@[hart as int].word_offset == WORDS_PER_HART * hart);
        old_mm.lemma_hart_map_is_bits_map(hart as int);
    }
    if n == 0 {
        return None;
    }
    let mh = mm.harts[hart];
    if mh.base_page_addr == 0 || mh.valid_bits == 0 || n > mh.valid_bits {
        return None;
    }
    let start_bit = match mm.find_free_run(mh.word_offset, mh.valid_bits, n) {
        Some(s) => s,
        None => {
            return None;
        },
    };
    assert(is_first_free_run(pool.map, start_bit as int, n as int));
    let mut bit = start_bit;
    while bit < start_bit + n
        invariant
            mm.layout_ok(),
            old_mm.layout_ok(),
            hart < HART_SLOTS,
            mm.harts@ == old_mm.harts@,
            mh == old_mm.harts@[hart as int],
            start_bit + n <= mh.valid_bits,
            start_bit <= bit <= start_bit + n,
            is_free_run(pool.map, start_bit as int, n as int),
            pool == old_mm@[hart as int],
            mm.hart_map(hart as int) == set_run(
                pool.map,
                start_bit as int,
                bit - start_bit,
                true,
            ),
            count_true(mm.hart_map(hart as int)) == pool.used + (bit - start_bit),
            forall|h2: int|
                0 <= h2 < HART_SLOTS && h2 != hart ==> mm.hart_map(h2) == old_mm.hart_map(h2),
        decreases start_bit + n - bit,
    {
        let ghost before = *mm;
        mm.set_partition_bit(mh.word_offset, bit);
        proof {
            assert(mm.harts@ == before.harts@);
            assert(mm.words@.len() == before.words@.len());
            assert(mm.layout_ok());
            PageAllocator::lemma_map_after_bit_change(&before, mm, hart as int, bit as int, true);
            lemma_count_update(before.hart_map(hart as int), bit as int, true);
            assert(mm.hart_map(hart as int) =~= set_run(
                pool.map,
                start_bit as int,
                bit + 1 - start_bit,
                true,
            ));
        }
        bit = bit + 1;
    }
    proof {
        lemma_count_le_len(mm.hart_map(hart as int));
    }
    let used = mh.used + n as u64;
    let high_water = if used > mh.high_water {
        used
    } else {
        mh.high_water
    };
    let ghost before = *mm;
    mm.harts.set(
        hart,
        MmHart {
            base_page_addr: mh.base_page_addr,
            word_offset: mh.word_offset,
            valid_bits: mh.valid_bits,
            used,
            high_water,
        },
    );
    proof {
        assert forall|h2: int| 0 <= h2 < HART_SLOTS implies mm.hart_map(h2) == before.hart_map(
            h2,
        ) by {
            assert(mm.hart_map(h2) =~= before.hart_map(h2));
        }
        let np = alloc_outcome(pool, n as int)->Some_0.1;
        lemma_first_fit_unique(pool.map, start_bit as int, n as int);
        assert(mm@[hart as int] == np);
        assert forall|h2: int| 0 <= h2 < HART_SLOTS && h2 != hart implies mm@[h2] == old_mm@[h2] by {
        }
        assert(mm@ =~= old_mm@.update(hart as int, np));
        assert forall|h: int| 0 <= h < HART_SLOTS implies #[trigger] pool_wf(mm@[h]) by {
            if h != hart {
                assert(pool_wf(old_mm@[h]));
            }
        }
    }
    Some(PhysPage { addr: mh.base_page_addr + (start_bit as u64) * PAGE_SIZE })
}

/// Bit index of page `addr` in the partition of `mm`, if it is one of its pages.
fn page_to_bit(mm: &MmHart, addr: u64) -> (r: Option<usize>)
    requires
        mm.valid_bits <= BITS_PER_HART,
    ensures
        r == (if mm.base_page_addr == 0 || addr < mm.base_page_addr || addr % PAGE_SIZE != 0 {
            None::<usize>
        } else if (addr - mm.base_page_addr) / (PAGE_SIZE as int) < mm.valid_bits {
            Some(((addr - mm.base_page_addr) / (PAGE_SIZE as int)) as usize)
        } else {
            None::<usize>
        }),
{
    if mm.base_page_addr == 0 || addr < mm.base_page_addr || !addr.is_multiple_of(PAGE_SIZE) {
        return None;
    }
    let bit = (addr - mm.base_page_addr) / PAGE_SIZE;
    if bit < mm.valid_bits as u64 {
        Some(bit as usize)
    } else {
        None
    }
}

/// Free `n` consecutive pages previously returned by [`alloc_pages`] on the
/// same hart. A request that does not name `n` in-use pages of this hart's
/// partition is ignored.
pub fn free_pages(mm: &mut PageAllocator, hart: usize, base: PhysPage, n: usize)
    requires
        old(mm).wf(),
        hart < HART_SLOTS,
    ensures
        final(mm).wf(),
        match free_outcome(old(mm)@[hart as int], base@ as int, n as int) {
            None => final(mm)@ == old(mm)@,
            Some(np) => final(mm)@ == old(mm)@.update(hart as int, np),
        },
{
    let ghost old_mm = *mm;
    let ghost pool = old_mm@[hart as int];
    proof {
        assert(pool_wf(old_mm@[hart as int]));
        assert(old_mm.harts@[hart as int].word_offset == WORDS_PER_HART * hart);
    }
    if n == 0 {
        return;
    }
    let mh = mm.harts[hart];
    let start_bit = match page_to_bit(&mh, base.addr) {
        Some(b) => b,
        None => {
            return;
        },
    };
    let end_bit = match start_bit.checked_add(n) {
        Some(e) => e,
        None => {
            return;
        },
    };
    if end_bit > mh.valid_bits {
        return;
    }
    let mut bit = start_bit;
    while bit < end_bit
        invariant
            mm.layout_ok(),
            hart < HART_SLOTS,
            *mm == old_mm,
            old_mm.wf(),
            start_bit as int == (base@ - pool.base) / (PAGE_SIZE as int),
            pool.base != 0 && base@ >= pool.base && base@ % PAGE_SIZE == 0,
            pool == old_mm@[hart as int],
            mh == old_mm.harts@[hart as int],
            end_bit == start_bit + n,
            end_bit <= mh.valid_bits,
            start_bit <= bit <= end_bit,
            forall|i: int| start_bit <= i < bit ==> pool.map[i],
        decreases end_bit - bit,
    {
        if !mm.test_partition_bit(mh.word_offset, bit) {
            assert(!pool.map[bit as int]);
            assert(start_bit <= bit < start_bit + n);
            assert(start_bit as int == (base@ - pool.base) / (PAGE_SIZE as int));
            assert(exists|i: int| start_bit <= i < start_bit + n && !pool.map[i]);
            return;
        }
        bit = bit + 1;
    }
    let mut bit = start_bit;
    while bit < end_bit
        invariant
            mm.layout_ok(),
            old_mm.layout_ok(),
            hart < HART_SLOTS,
            mm.harts@ == old_mm.harts@,
            mh == old_mm.harts@[hart as int],
            pool == old_mm@[hart as int],
            end_bit == start_bit + n,
            end_bit <= mh.valid_bits,
            start_bit <= bit <= end_bit,
            forall|i: int| start_bit <= i < end_bit ==> pool.map[i],
            mm.hart_map(hart as int) == set_run(
                pool.map,
                start_bit as int,
                bit - start_bit,
                false,
            ),
            count_true(mm.hart_map(hart as int)) == pool.used - (bit - start_bit),
            forall|h2: int|
                0 <= h2 < HART_SLOTS && h2 != hart ==> mm.hart_map(h2) == old_mm.hart_map(h2),
        decreases end_bit - bit,
    {
        let ghost before = *mm;
        mm.clear_partition_bit(mh.word_offset, bit);
        proof {
            assert(mm.harts@ == before.harts@);
            assert(mm.words@.len() == before.words@.len());
            assert(mm.layout_ok());
            PageAllocator::lemma_map_after_bit_change(&before, mm, hart as int, bit as int, false);
            lemma_count_update(before.hart_map(hart as int), bit as int, false);
            assert(mm.hart_map(hart as int) =~= set_run(
                pool.map,
                start_bit as int,
                bit + 1 - start_bit,
                false,
            ));
        }
        bit = bit + 1;
    }
    let used = mh.used.saturating_sub(n as u64);
    let ghost before = *mm;
    mm.harts.set(
        hart,
        MmHart {
            base_page_addr: mh.base_page_addr,
            word_offset: mh.word_offset,
            valid_bits: mh.valid_bits,
            used,
            high_water: mh.high_water,
        },
    );
    proof {
        assert forall|h2: int| 0 <= h2 < HART_SLOTS implies mm.hart_map(h2) == before.hart_map(
            h2,
        ) by {
            assert(mm.hart_map(h2) =~= before.hart_map(h2));
        }
        assert(!(exists|i: int| start_bit <= i < start_bit + n && !pool.map[i]));
        let np = free_outcome(pool, base@ as int, n as int)->Some_0;
        assert(mm@[hart as int] == np);
        assert forall|h2: int| 0 <= h2 < HART_SLOTS && h2 != hart implies mm@[h2] == old_mm@[h2] by {
        }
        assert(mm@ =~= old_mm@.update(hart as int, np));
        assert forall|h: int| 0 <= h < HART_SLOTS implies #[trigger] pool_wf(mm@[h]) by {
            if h != hart {
                assert(pool_wf(old_mm@[h]));
            }
        }
        assert(pools_wf(mm@));
        assert(mm.layout_ok());
    }
}

} // verus!

verus! {

/// First address past the end of RAM.
pub open spec fn ram_limit() -> int {
    RAM_START + RAM_SIZE
}

/// First managed page for a free-memory start, when there is room below the
/// end of RAM.
pub open spec fn init_start(free_memory_start: u64) -> Option<u64> {
    match align_up_spec(free_memory_start as int, PAGE_SIZE as int) {
        Some(s) => if s < ram_limit() {
            Some(s)
        } else {
            None
        },
        None => None,
    }
}

/// Pages managed in total when they start at `start` (capped by the bitmap).
pub open spec fn managed_pages(start: int) -> int {
    let pages = (ram_limit() - start) / (PAGE_SIZE as int);
    if pages > BITMAP_BITS {
        BITMAP_BITS as int
    } else {
        pages
    }
}

/// Pages of partition `h` when `total` pages are managed.
pub open spec fn hart_valid_bits(total: int, h: int) -> int {
    if total > h * BITS_PER_HART {
        if total - h * BITS_PER_HART < BITS_PER_HART {
            total - h * BITS_PER_HART
        } else {
            BITS_PER_HART as int
        }
    } else {
        0
    }
}

/// The page ranges `[base, base + valid_bits * PAGE_SIZE)` of two pools do
/// not overlap.
pub open spec fn pool_ranges_disjoint(p: PoolView, q: PoolView) -> bool {
    p.base + p.valid_bits * PAGE_SIZE <= q.base || q.base + q.valid_bits * PAGE_SIZE <= p.base
}

/// After partitioning free memory that starts at `start`, hart `h`'s pool
/// starts `h * BITS_PER_HART` pages past `start`, holds at most
/// `BITS_PER_HART` pages, and the pools of two different harts never share
/// a page.
pub proof fn lemma_init_pools_disjoint(start: int, h1: int, h2: int)
    requires
        0 <= h1 < HART_SLOTS,
        0 <= h2 < HART_SLOTS,
        h1 != h2,
    ensures
        init_pool(start, h1).base == start + h1 * BITS_PER_HART * PAGE_SIZE,
        0 <= init_pool(start, h1).valid_bits <= BITS_PER_HART,
        pool_ranges_disjoint(init_pool(start, h1), init_pool(start, h2)),
{
    let p = init_pool(start, h1);
    let q = init_pool(start, h2);
    assert(0 <= p.valid_bits <= BITS_PER_HART);
    assert(0 <= q.valid_bits <= BITS_PER_HART);
    if h1 < h2 {
        assert(p.valid_bits * PAGE_SIZE <= BITS_PER_HART * PAGE_SIZE) by (nonlinear_arith)
            requires
                p.valid_bits <= BITS_PER_HART,
        ;
        assert(h1 * BITS_PER_HART * PAGE_SIZE + BITS_PER_HART * PAGE_SIZE <= h2 * BITS_PER_HART
            * PAGE_SIZE) by (nonlinear_arith)
            requires
                h1 + 1 <= h2,
        ;
    } else {
        assert(q.valid_bits * PAGE_SIZE <= BITS_PER_HART * PAGE_SIZE) by (nonlinear_arith)
            requires
                q.valid_bits <= BITS_PER_HART,
        ;
        assert(h2 * BITS_PER_HART * PAGE_SIZE + BITS_PER_HART * PAGE_SIZE <= h1 * BITS_PER_HART
            * PAGE_SIZE) by (nonlinear_arith)
            requires
                h2 + 1 <= h1,
        ;
    }
}

/// The pool of hart `h` right after partitioning memory that starts at `start`.
pub open spec fn init_pool(start: int, h: int) -> PoolView {
    let valid = hart_valid_bits(managed_pages(start), h);
    PoolView {
        base: start + h * BITS_PER_HART * PAGE_SIZE,
        valid_bits: valid,
        used: 0,
        high_water: 0,
        map: Seq::new(valid as nat, |i: int| false),
    }
}

proof fn lemma_align_up_spec(value: int, align: int)
    requires
        value >= 0,
        align_up_spec(value, align) is Some,
    ensures
        ({
            let r = align_up_spec(value, align)->Some_0 as int;
            r % align == 0 && value <= r < value + align
        }),
{
    let x = value + align - 1;
    lemma_round_up_unique(value, align, x - x % align);
    assert(0 <= x % align < align);
    assert(0 <= x - x % align <= u64::MAX);
}

/// Partition free memory into `HART_SLOTS` bitmap ranges, all pages free.
/// Pages past the end of RAM stay marked in use. Nothing changes when free
/// memory starts at or past the end of RAM.
pub fn init(mm: &mut PageAllocator, layout: &Layout)
    requires
        old(mm).wf(),
    ensures
        final(mm).wf(),
        match init_start(layout.free_memory_start) {
            None => final(mm)@ == old(mm)@,
            Some(start) => forall|h: int|
                0 <= h < HART_SLOTS ==> #[trigger] final(mm)@[h] == init_pool(start as int, h),
        },
        init_start(layout.free_memory_start) is Some ==> forall|h1: int, h2: int|
            0 <= h1 < HART_SLOTS && 0 <= h2 < HART_SLOTS && h1 != h2 ==> pool_ranges_disjoint(
                #[trigger] final(mm)@[h1],
                #[trigger] final(mm)@[h2],
            ),
{
    proof {
        if let Some(start) = init_start(layout.free_memory_start) {
            assert forall|h1: int, h2: int|
                0 <= h1 < HART_SLOTS && 0 <= h2 < HART_SLOTS && h1 != h2 implies pool_ranges_disjoint(
                init_pool(start as int, h1),
                init_pool(start as int, h2),
            ) by {
                lemma_init_pools_disjoint(start as int, h1, h2);
            }
        }
    }
    let ram_end = (RAM_START as u64).checked_add(RAM_SIZE as u64);
    let start = align_up(layout.free_memory_start, PAGE_SIZE);
    let (start, ram_end) = match (start, ram_end) {
        (Some(s), Some(e)) => (s, e),
        _ => {
            return;
        },
    };
    if start >= ram_end {
        return;
    }
    proof {
        lemma_align_up_spec(layout.free_memory_start as int, PAGE_SIZE as int);
    }
    let span = ram_end - start;
    let mut total_valid_bits = (span / PAGE_SIZE) as usize;
    if total_valid_bits > BITMAP_BITS {
        total_valid_bits = BITMAP_BITS;
    }
    assert(total_valid_bits == managed_pages(start as int));
    let mut slot: usize = 0;
    while slot < HART_SLOTS
        invariant
            slot <= HART_SLOTS,
            mm.words@.len() == BITMAP_WORDS,
            mm.harts@.len() == HART_SLOTS,
            start < ram_end,
            ram_end == ram_limit(),
            start % PAGE_SIZE == 0,
            total_valid_bits == managed_pages(start as int),
            forall|h: int|
                0 <= h < slot ==> {
                    let mh = #[trigger] mm.harts@[h];
                    &&& mh.base_page_addr == start + h * BITS_PER_HART * PAGE_SIZE
                    &&& mh.word_offset == WORDS_PER_HART * h
                    &&& mh.valid_bits == hart_valid_bits(total_valid_bits as int, h)
                    &&& mh.used == 0
                    &&& mh.high_water == 0
                },
            forall|h: int, b: int|
                0 <= h < slot && 0 <= b < BITS_PER_HART ==> #[trigger] bit_of(
                    mm.words@[WORDS_PER_HART * h + b / 64],
                    b % 64,
                ) == (b >= hart_valid_bits(total_valid_bits as int, h)),
        decreases HART_SLOTS - slot,
    {
        let word_offset = slot * WORDS_PER_HART;
        let hart_bit_start = slot * BITS_PER_HART;
        let hart_page_base = start + (hart_bit_start as u64) * PAGE_SIZE;
        let valid_bits = if total_valid_bits > hart_bit_start {
            if total_valid_bits - hart_bit_start < BITS_PER_HART {
                total_valid_bits - hart_bit_start
            } else {
                BITS_PER_HART
            }
        } else {
            0
        };
        assert(valid_bits == hart_valid_bits(total_valid_bits as int, slot as int));
        let mut bit: usize = 0;
        while bit < BITS_PER_HART
            invariant
                slot < HART_SLOTS,
                word_offset == WORDS_PER_HART * slot,
                bit <= BITS_PER_HART,
                mm.words@.len() == BITMAP_WORDS,
                mm.harts@.len() == HART_SLOTS,
                valid_bits == hart_valid_bits(total_valid_bits as int, slot as int),
                forall|h: int|
                    0 <= h < slot ==> {
                        let mh = #[trigger] mm.harts@[h];
                        &&& mh.base_page_addr == start + h * BITS_PER_HART * PAGE_SIZE
                        &&& mh.word_offset == WORDS_PER_HART * h
                        &&& mh.valid_bits == hart_valid_bits(total_valid_bits as int, h)
                        &&& mh.used == 0
                        &&& mh.high_water == 0
                    },
                forall|h: int, b: int|
                    0 <= h < slot && 0 <= b < BITS_PER_HART ==> #[trigger] bit_of(
                        mm.words@[WORDS_PER_HART * h + b / 64],
                        b % 64,
                    ) == (b >= hart_valid_bits(total_valid_bits as int, h)),
                forall|b: int|
                    0 <= b < bit ==> #[trigger] bit_of(
                        mm.words@[WORDS_PER_HART * slot + b / 64],
                        b % 64,
                    ) == (b >= valid_bits),
            decreases BITS_PER_HART - bit,
        {
            let ghost before = mm.words@;
            if bit >= valid_bits {
                mm.set_partition_bit(word_offset, bit);
            } else {
                mm.clear_partition_bit(word_offset, bit);
            }
            proof {
                assert forall|h: int, b: int|
                    0 <= h < slot && 0 <= b < BITS_PER_HART implies #[trigger] bit_of(
                    mm.words@[WORDS_PER_HART * h + b / 64],
                    b % 64,
                ) == (b >= hart_valid_bits(total_valid_bits as int, h)) by {
                    assert(bit_of(mm.words@[WORDS_PER_HART * h + b / 64], b % 64) == bit_of(
                        before[WORDS_PER_HART * h + b / 64],
                        b % 64,
                    ));
                }
                assert forall|b: int| 0 <= b < bit + 1 implies #[trigger] bit_of(
                    mm.words@[WORDS_PER_HART * slot + b / 64],
                    b % 64,
                ) == (b >= valid_bits) by {
                    if b < bit {
                        assert(bit_of(mm.words@[WORDS_PER_HART * slot + b / 64], b % 64) == bit_of(
                            before[WORDS_PER_HART * slot + b / 64],
                            b % 64,
                        ));
                    }
                }
            }
            bit = bit + 1;
        }
        mm.harts.set(
            slot,
            MmHart {
                base_page_addr: hart_page_base,
                word_offset,
                valid_bits,
                used: 0,
                high_water: 0,
            },
        );
        slot = slot + 1;
    }
    proof {
        assert(mm.layout_ok());
        assert forall|h: int| 0 <= h < HART_SLOTS implies #[trigger] mm@[h] == init_pool(
            start as int,
            h,
        ) by {
            assert(mm.hart_map(h) =~= init_pool(start as int, h).map);
        }
        assert forall|h: int| 0 <= h < HART_SLOTS implies #[trigger] pool_wf(mm@[h]) by {
            assert(mm@[h] == init_pool(start as int, h));
            lemma_count_all_false(hart_valid_bits(total_valid_bits as int, h) as nat);
        }
    }
}

/// Totals over the first `k` pools.
pub open spec fn sum_free(v: Seq<PoolView>, k: int) -> int
    decreases k,
{
    if k <= 0 {
        0
    } else {
        sum_free(v, k - 1) + (v[k - 1].valid_bits - v[k - 1].used)
    }
}

pub open spec fn sum_used(v: Seq<PoolView>, k: int) -> int
    decreases k,
{
    if k <= 0 {
        0
    } else {
        sum_used(v, k - 1) + v[k - 1].used
    }
}

pub open spec fn max_high_water(v: Seq<PoolView>, k: int) -> int
    decreases k,
{
    if k <= 0 {
        0
    } else if v[k - 1].high_water > max_high_water(v, k - 1) {
        v[k - 1].high_water
    } else {
        max_high_water(v, k - 1)
    }
}

/// Free, used and peak page counts summed (peak: maximum) over all harts.
pub fn stats(mm: &PageAllocator) -> (r: MmStats)
    requires
        mm.wf(),
    ensures
        r.free == sum_free(mm@, HART_SLOTS as int),
        r.used == sum_used(mm@, HART_SLOTS as int),
        r.high_water == max_high_water(mm@, HART_SLOTS as int),
        r.used <= HART_SLOTS * BITS_PER_HART,
{
    let mut total_free: u64 = 0;
    let mut total_used: u64 = 0;
    let mut max_hw: u64 = 0;
    let mut slot: usize = 0;
    while slot < HART_SLOTS
        invariant
            mm.wf(),
            slot <= HART_SLOTS,
            total_free == sum_free(mm@, slot as int),
            total_used == sum_used(mm@, slot as int),
            max_hw == max_high_water(mm@, slot as int),
            total_free <= slot * BITS_PER_HART,
            total_used <= slot * BITS_PER_HART,
            max_hw <= BITS_PER_HART,
        decreases HART_SLOTS - slot,
    {
        let info = mm.harts[slot];
        proof {
            assert(pool_wf(mm@[slot as int]));
        }
        total_free = total_free + (info.valid_bits as u64).saturating_sub(info.used);
        total_used = total_used + info.used;
        if info.high_water > max_hw {
            max_hw = info.high_water;
        }
        slot = slot + 1;
    }
    MmStats { free: total_free, used: total_used, high_water: max_hw }
}

/// One page from `hart`'s partition, by address.
pub fn allocate_page(mm: &mut PageAllocator, hart: usize) -> (r: Option<u64>)
    requires
        old(mm).wf(),
        hart < HART_SLOTS,
    ensures
        final(mm).wf(),
        match alloc_outcome(old(mm)@[hart as int], 1) {
            None => r is None && final(mm)@ == old(mm)@,
            Some((s, np)) => r == Some((old(mm)@[hart as int].base + s * PAGE_SIZE) as u64)
                && final(mm)@ == old(mm)@.update(hart as int, np),
        },
{
    match alloc_pages(mm, hart, 1) {
        Some(p) => Some(p.addr()),
        None => None,
    }
}

/// Address of the lowest free page of pool `p`, or 0 when there is none.
pub open spec fn lowest_free_addr(p: PoolView) -> int {
    if p.base == 0 || p.valid_bits == 0 {
        0
    } else {
        match first_fit(p.map, 1) {
            Some(s) => p.base + s * PAGE_SIZE,
            None => 0,
        }
    }
}

/// The number of free pages in `hart`'s partition.
pub fn free_page_count(mm: &PageAllocator, hart: usize) -> (r: u64)
    requires
        mm.wf(),
        hart < HART_SLOTS,
    ensures
        r == mm@[hart as int].valid_bits - mm@[hart as int].used,
{
    let mh = mm.harts[hart];
    proof {
        assert(pool_wf(mm@[hart as int]));
    }
    mh.valid_bits as u64 - mh.used
}

/// The lowest free page of `hart`'s partition, or 0 when there is none.
pub fn free_memory_current(mm: &PageAllocator, hart: usize) -> (r: u64)
    requires
        mm.wf(),
        hart < HART_SLOTS,
    ensures
        r == lowest_free_addr(mm@[hart as int]),
{
    let mh = mm.harts[hart];
    proof {
        assert(pool_wf(mm@[hart as int]));
        mm.lemma_hart_map_is_bits_map(hart as int);
    }
    if mh.base_page_addr == 0 || mh.valid_bits == 0 {
        return 0;
    }
    match mm.find_free_run(mh.word_offset, mh.valid_bits, 1) {
        Some(bit) => mh.base_page_addr + (bit as u64) * PAGE_SIZE,
        None => 0,
    }
}

/// First address past `hart`'s partition, or 0 when it has none.
pub fn memory_end(mm: &PageAllocator, hart: usize) -> (r: u64)
    requires
        mm.wf(),
        hart < HART_SLOTS,
    ensures
        r == (if mm@[hart as int].base == 0 {
            0
        } else {
            mm@[hart as int].base + mm@[hart as int].valid_bits * PAGE_SIZE
        }),
{
    let mh = mm.harts[hart];
    proof {
        assert(pool_wf(mm@[hart as int]));
    }
    if mh.base_page_addr == 0 {
        0
    } else {
        mh.base_page_addr + (mh.valid_bits as u64) * PAGE_SIZE
    }
}

/// Linker-provided section boundaries of the kernel image.
#[derive(Clone, Copy)]
pub struct Layout {
    pub kernel_start: u64,
    pub kernel_end: u64,
    pub text_start: u64,
    pub text_end: u64,
    pub user_text_start: u64,
    pub user_text_end: u64,
    pub rodata_start: u64,
    pub rodata_end: u64,
    pub data_start: u64,
    pub data_end: u64,
    pub bss_start: u64,
    pub bss_end: u64,
    pub stack_top: u64,
    pub free_memory_start: u64,
}

pub fn kernel_start(layout: &Layout) -> (r: u64)
    ensures
        r == layout.kernel_start,
{
    layout.kernel_start
}

pub fn kernel_end(layout: &Layout) -> (r: u64)
    ensures
        r == layout.kernel_end,
{
    layout.kernel_end
}

pub fn text_start(layout: &Layout) -> (r: u64)
    ensures
        r == layout.text_start,
{
    layout.text_start
}

pub fn text_end(layout: &Layout) -> (r: u64)
    ensures
        r == layout.text_end,
{
    layout.text_end
}

pub fn user_text_start(layout: &Layout) -> (r: u64)
    ensures
        r == layout.user_text_start,
{
    layout.user_text_start
}

pub fn user_text_end(layout: &Layout) -> (r: u64)
    ensures
        r == layout.user_text_end,
{
    layout.user_text_end
}

pub fn rodata_start(layout: &Layout) -> (r: u64)
    ensures
        r == layout.rodata_start,
{
    layout.rodata_start
}

pub fn rodata_end(layout: &Layout) -> (r: u64)
    ensures
        r == layout.rodata_end,
{
    layout.rodata_end
}

pub fn data_start(layout: &Layout) -> (r: u64)
    ensures
        r == layout.data_start,
{
    layout.data_start
}

pub fn data_end(layout: &Layout) -> (r: u64)
    ensures
        r == layout.data_end,
{
    layout.data_end
}

pub fn bss_start(layout: &Layout) -> (r: u64)
    ensures
        r == layout.bss_start,
{
    layout.bss_start
}

pub fn bss_end(layout: &Layout) -> (r: u64)
    ensures
        r == layout.bss_end,
{
    layout.bss_end
}

pub fn stack_top(layout: &Layout) -> (r: u64)
    ensures
        r == layout.stack_top,
{
    layout.stack_top
}

pub fn free_memory_start(layout: &Layout) -> (r: u64)
    ensures
        r == layout.free_memory_start,
{
    layout.free_memory_start
}

/// Kernel `.text` is the image's `.text` section.
pub fn kernel_text_start(layout: &Layout) -> (r: u64)
    ensures
        r == layout.text_start,
{
    text_start(layout)
}

pub fn kernel_text_end(layout: &Layout) -> (r: u64)
    ensures
        r == layout.text_end,
{
    text_end(layout)
}

pub open spec fn in_kernel_text(layout: Layout, addr: u64) -> bool {
    layout.text_start <= addr < layout.text_end
}

pub open spec fn in_user_text(layout: Layout, addr: u64) -> bool {
    layout.user_text_start <= addr < layout.user_text_end
}

pub fn is_inside_kernel_text(layout: &Layout, addr: u64) -> (r: bool)
    ensures
        r == in_kernel_text(*layout, addr),
{
    addr >= kernel_text_start(layout) && addr < kernel_text_end(layout)
}

pub fn is_inside_user_text(layout: &Layout, addr: u64) -> (r: bool)
    ensures
        r == in_user_text(*layout, addr),
{
    addr >= user_text_start(layout) && addr < user_text_end(layout)
}

} // verus!

verus! {

/// Console text of a named address range and its size.
pub open spec fn range_text(name: Seq<u8>, start: u64, end: u64) -> Seq<u8> {
    crlf(name) + crlf(": ".spec_bytes()) + hex_text(start) + crlf(" - ".spec_bytes()) + hex_text(
        end,
    ) + crlf(" size: ".spec_bytes()) + dec_text(if end >= start { (end - start) as u64 } else { 0 })
        + line_bytes(" bytes".spec_bytes())
}

fn print_range(name: &str, start: u64, end: u64) -> (r: Vec<u8>)
    ensures
        r@ == range_text(name.spec_bytes(), start, end),
{
    let mut out = uart::write_str(name);
    let mut a = uart::write_str(": ");
    out.append(&mut a);
    let mut b = uart::write_hex_u64(start);
    out.append(&mut b);
    let mut c = uart::write_str(" - ");
    out.append(&mut c);
    let mut d = uart::write_hex_u64(end);
    out.append(&mut d);
    let mut e = uart::write_str(" size: ");
    out.append(&mut e);
    let mut f = uart::write_dec_u64(end.saturating_sub(start));
    out.append(&mut f);
    let mut g = uart::write_line(" bytes");
    out.append(&mut g);
    out
}

/// Console text of the kernel image layout and the RAM bounds.
pub open spec fn memory_layout_text(layout: Layout) -> Seq<u8> {
    line_bytes("".spec_bytes()) + line_bytes("memory layout:".spec_bytes()) + range_text(
        "kernel".spec_bytes(),
        layout.kernel_start,
        layout.kernel_end,
    ) + range_text("text".spec_bytes(), layout.text_start, layout.text_end) + range_text(
        "usertext".spec_bytes(),
        layout.user_text_start,
        layout.user_text_end,
    ) + range_text("rodata".spec_bytes(), layout.rodata_start, layout.rodata_end) + range_text(
        "data".spec_bytes(),
        layout.data_start,
        layout.data_end,
    ) + range_text("bss".spec_bytes(), layout.bss_start, layout.bss_end) + crlf(
        "stack_top: ".spec_bytes(),
    ) + hex_text(layout.stack_top) + line_bytes("".spec_bytes()) + crlf(
        "free_memory_start: ".spec_bytes(),
    ) + hex_text(layout.free_memory_start) + line_bytes("".spec_bytes()) + crlf(
        "RAM start: ".spec_bytes(),
    ) + hex_text(RAM_START as u64) + line_bytes("".spec_bytes()) + crlf("RAM end: ".spec_bytes())
        + hex_text((RAM_START + RAM_SIZE) as u64) + line_bytes("".spec_bytes())
}

pub fn print_memory_layout(layout: &Layout) -> (r: Vec<u8>)
    ensures
        r@ == memory_layout_text(*layout),
{
    let mut out = uart::write_line("");
    let mut a = uart::write_line("memory layout:");
    out.append(&mut a);
    let mut b = print_range("kernel", kernel_start(layout), kernel_end(layout));
    out.append(&mut b);
    let mut c = print_range("text", text_start(layout), text_end(layout));
    out.append(&mut c);
    let mut d = print_range("usertext", user_text_start(layout), user_text_end(layout));
    out.append(&mut d);
    let mut e = print_range("rodata", rodata_start(layout), rodata_end(layout));
    out.append(&mut e);
    let mut f = print_range("data", data_start(layout), data_end(layout));
    out.append(&mut f);
    let mut g = print_range("bss", bss_start(layout), bss_end(layout));
    out.append(&mut g);
    let mut h = uart::write_str("stack_top: ");
    out.append(&mut h);
    let mut i = uart::write_hex_u64(stack_top(layout));
    out.append(&mut i);
    let mut j = uart::write_line("");
    out.append(&mut j);
    let mut l = uart::write_str("free_memory_start: ");
    out.append(&mut l);
    let mut m = uart::write_hex_u64(free_memory_start(layout));
    out.append(&mut m);
    let mut n = uart::write_line("");
    out.append(&mut n);
    let mut o = uart::write_str("RAM start: ");
    out.append(&mut o);
    let mut p = uart::write_hex_u64(RAM_START as u64);
    out.append(&mut p);
    let mut q = uart::write_line("");
    out.append(&mut q);
    let mut s = uart::write_str("RAM end: ");
    out.append(&mut s);
    let mut t = uart::write_hex_u64(RAM_START as u64 + RAM_SIZE as u64);
    out.append(&mut t);
    let mut u = uart::write_line("");
    out.append(&mut u);
    out
}

/// Console text of the page counts over all harts.
pub open spec fn mm_stats_text(pools: Seq<PoolView>) -> Seq<u8> {
    crlf("mm free: ".spec_bytes()) + dec_text(sum_free(pools, HART_SLOTS as int) as u64) + line_bytes(
        "".spec_bytes(),
    ) + crlf("mm used: ".spec_bytes()) + dec_text(sum_used(pools, HART_SLOTS as int) as u64)
        + line_bytes("".spec_bytes()) + crlf("mm high_water: ".spec_bytes()) + dec_text(
        max_high_water(pools, HART_SLOTS as int) as u64,
    ) + line_bytes("".spec_bytes())
}

pub fn print_mm_stats(mm: &PageAllocator) -> (r: Vec<u8>)
    requires
        mm.wf(),
    ensures
        r@ == mm_stats_text(mm@),
{
    let s = stats(mm);
    let mut out = uart::write_str("mm free: ");
    let mut a = uart::write_dec_u64(s.free);
    out.append(&mut a);
    let mut b = uart::write_line("");
    out.append(&mut b);
    let mut c = uart::write_str("mm used: ");
    out.append(&mut c);
    let mut d = uart::write_dec_u64(s.used);
    out.append(&mut d);
    let mut e = uart::write_line("");
    out.append(&mut e);
    let mut f = uart::write_str("mm high_water: ");
    out.append(&mut f);
    let mut g = uart::write_dec_u64(s.high_water);
    out.append(&mut g);
    let mut h = uart::write_line("");
    out.append(&mut h);
    out
}

} // verus!

verus! {

/// Pages managed over the first `k` pools.
pub open spec fn sum_valid(v: Seq<PoolView>, k: int) -> int
    decreases k,
{
    if k <= 0 {
        0
    } else {
        sum_valid(v, k - 1) + v[k - 1].valid_bits
    }
}

proof fn lemma_sums_split(v: Seq<PoolView>, k: int)
    requires
        0 <= k <= HART_SLOTS,
        pools_wf(v),
    ensures
        sum_free(v, k) + sum_used(v, k) == sum_valid(v, k),
        forall|j: int| 0 <= j < k ==> #[trigger] v[j].used <= v[j].high_water <= max_high_water(v, k),
    decreases k,
{
    if k > 0 {
        lemma_sums_split(v, k - 1);
        assert(pool_wf(v[k - 1]));
    }
}

proof fn lemma_sums_update(v: Seq<PoolView>, h: int, np: PoolView, d: int, k: int)
    requires
        0 <= h < v.len(),
        0 <= k <= v.len(),
        np.valid_bits == v[h].valid_bits,
        np.used == v[h].used + d,
        np.high_water >= v[h].high_water,
    ensures
        sum_valid(v.update(h, np), k) == sum_valid(v, k),
        sum_used(v.update(h, np), k) == sum_used(v, k) + if h < k {
            d
        } else {
            0
        },
        max_high_water(v.update(h, np), k) >= max_high_water(v, k),
    decreases k,
{
    if k > 0 {
        lemma_sums_update(v, h, np, d, k - 1);
    }
}

/// In every well-formed allocator state the free and used page counts add
/// up to the pages managed, and the peak is at least every hart's use.
pub proof fn lemma_stats_accounts(v: Seq<PoolView>)
    requires
        pools_wf(v),
    ensures
        sum_free(v, HART_SLOTS as int) + sum_used(v, HART_SLOTS as int) == sum_valid(
            v,
            HART_SLOTS as int,
        ),
        forall|h: int|
            0 <= h < HART_SLOTS ==> #[trigger] v[h].used <= max_high_water(v, HART_SLOTS as int),
{
    lemma_sums_split(v, HART_SLOTS as int);
}

/// An allocation of `n` pages on hart `h` leaves the pages managed as they
/// were, adds `n` to the pages used and never lowers the peak.
pub proof fn lemma_alloc_accounts(v: Seq<PoolView>, h: int, n: int)
    requires
        pools_wf(v),
        0 <= h < HART_SLOTS,
        alloc_outcome(v[h], n) is Some,
    ensures
        ({
            let w = v.update(h, alloc_outcome(v[h], n)->Some_0.1);
            &&& sum_valid(w, HART_SLOTS as int) == sum_valid(v, HART_SLOTS as int)
            &&& sum_used(w, HART_SLOTS as int) == sum_used(v, HART_SLOTS as int) + n
            &&& max_high_water(w, HART_SLOTS as int) >= max_high_water(v, HART_SLOTS as int)
        }),
{
    let np = alloc_outcome(v[h], n)->Some_0.1;
    lemma_sums_update(v, h, np, n, HART_SLOTS as int);
}

/// Freeing `n` pages at `addr` on hart `h` leaves the pages managed as they
/// were, takes `n` from the pages used and leaves the peak where it was.
pub proof fn lemma_free_accounts(v: Seq<PoolView>, h: int, addr: int, n: int)
    requires
        pools_wf(v),
        0 <= h < HART_SLOTS,
        free_outcome(v[h], addr, n) is Some,
    ensures
        ({
            let w = v.update(h, free_outcome(v[h], addr, n)->Some_0);
            &&& sum_valid(w, HART_SLOTS as int) == sum_valid(v, HART_SLOTS as int)
            &&& sum_used(w, HART_SLOTS as int) == sum_used(v, HART_SLOTS as int) - n
            &&& max_high_water(w, HART_SLOTS as int) == max_high_water(v, HART_SLOTS as int)
        }),
{
    let np = free_outcome(v[h], addr, n)->Some_0;
    lemma_sums_update(v, h, np, -n, HART_SLOTS as int);
    lemma_max_same(v, h, np, HART_SLOTS as int);
}

proof fn lemma_max_same(v: Seq<PoolView>, h: int, np: PoolView, k: int)
    requires
        0 <= h < v.len(),
        0 <= k <= v.len(),
        np.high_water == v[h].high_water,
    ensures
        max_high_water(v.update(h, np), k) == max_high_water(v, k),
    decreases k,
{
    if k > 0 {
        lemma_max_same(v, h, np, k - 1);
    }
}

/// An allocation hands out pages that were free and lie inside the pool, and
/// a second allocation from the pool it leaves never hands out any of them:
/// the address ranges of the two runs are disjoint.
pub proof fn lemma_allocs_disjoint(p: PoolView, n1: int, n2: int)
    requires
        pool_wf(p),
        alloc_outcome(p, n1) is Some,
        alloc_outcome(alloc_outcome(p, n1)->Some_0.1, n2) is Some,
    ensures
        ({
            let (s1, p1) = alloc_outcome(p, n1)->Some_0;
            let (s2, p2) = alloc_outcome(p1, n2)->Some_0;
            &&& is_free_run(p.map, s1, n1)
            &&& is_free_run(p1.map, s2, n2)
            &&& s1 + n1 <= s2 || s2 + n2 <= s1
            &&& p.base + (s1 + n1) * PAGE_SIZE <= p.base + s2 * PAGE_SIZE || p.base + (s2 + n2)
                * PAGE_SIZE <= p.base + s1 * PAGE_SIZE
        }),
{
    let (s1, p1) = alloc_outcome(p, n1)->Some_0;
    let (s2, p2) = alloc_outcome(p1, n2)->Some_0;
    assert(is_first_free_run(p.map, s1, n1)) by {
        let c = choose|t: int| is_first_free_run(p.map, t, n1);
        assert(first_fit(p.map, n1) == Some(c));
    }
    assert(is_first_free_run(p1.map, s2, n2)) by {
        let c = choose|t: int| is_first_free_run(p1.map, t, n2);
        assert(first_fit(p1.map, n2) == Some(c));
    }
    if !(s1 + n1 <= s2 || s2 + n2 <= s1) {
        let i = if s1 <= s2 {
            s2
        } else {
            s1
        };
        assert(p1.map[i]);
        assert(!p1.map[i]);
    }
    if s1 + n1 <= s2 {
        assert((s1 + n1) * PAGE_SIZE <= s2 * PAGE_SIZE) by (nonlinear_arith)
            requires
                s1 + n1 <= s2,
        ;
    } else {
        assert((s2 + n2) * PAGE_SIZE <= s1 * PAGE_SIZE) by (nonlinear_arith)
            requires
                s2 + n2 <= s1,
        ;
    }
}

/// Freeing the pages an allocation handed out gives the pool back its in-use
/// map and use count (the peak stays), and the same request is then served
/// from the same page.
pub proof fn lemma_alloc_free_roundtrip(p: PoolView, n: int)
    requires
        pool_wf(p),
        alloc_outcome(p, n) is Some,
    ensures
        ({
            let (s, p1) = alloc_outcome(p, n)->Some_0;
            &&& free_outcome(p1, p.base + s * PAGE_SIZE, n) matches Some(p2)
            &&& p2.map == p.map
            &&& p2.used == p.used
            &&& p2.base == p.base
            &&& p2.valid_bits == p.valid_bits
            &&& p2.high_water == p1.high_water
            &&& alloc_outcome(p2, n) matches Some((s2, _)) && s2 == s
        }),
{
    let (s, p1) = alloc_outcome(p, n)->Some_0;
    let m = p.map;
    assert(is_first_free_run(m, s, n)) by {
        let c = choose|t: int| is_first_free_run(m, t, n);
        assert(first_fit(m, n) == Some(c));
    }
    let addr = p.base + s * PAGE_SIZE;
    assert(addr % (PAGE_SIZE as int) == 0 && (addr - p.base) / (PAGE_SIZE as int) == s) by {
        vstd::arithmetic::div_mod::lemma_mod_multiples_basic(s, PAGE_SIZE as int);
        vstd::arithmetic::div_mod::lemma_div_multiples_vanish(s, PAGE_SIZE as int);
        vstd::arithmetic::div_mod::lemma_mod_add_multiples_vanish(p.base, PAGE_SIZE as int);
        assert(addr == p.base + s * (PAGE_SIZE as int));
        vstd::arithmetic::div_mod::lemma_add_mod_noop(p.base, s * (PAGE_SIZE as int), PAGE_SIZE as int);
    }
    assert(!exists|i: int| s <= i < s + n && !p1.map[i]);
    let p2 = free_outcome(p1, addr, n)->Some_0;
    assert(p2.map =~= m);
    lemma_first_fit_unique(p2.map, s, n);
}

} // verus!
