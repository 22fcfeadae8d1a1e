//! Locating the game's device manager in the `.data` section of its image.
//!
//! The device manager is a static object whose address sits in some pointer
//! slot of `.data`. The scan walks the pointer-aligned slots of the section,
//! takes each as a candidate address, and accepts the first candidate whose
//! object lies inside `.data` and whose words look like a device manager:
//! five vectors that share one allocator, non-null devices, and a mutex
//! vtable inside `.rdata`. Memory is handed in as the pointer-sized words
//! that the scan can read, starting at the first aligned address of `.data`.
use vstd::prelude::*;

verus! {

/// Size in bytes of a pointer on the targets the games run on.
pub const POINTER_SIZE: u64 = 8u64;

/// Size in bytes of a device manager object: five vectors of four words, the
/// disk device, two archive SPIs, the mutex vtable, and a critical section of
/// five words.
pub const DEVICE_MANAGER_SIZE: u64 = 232u64;

/// The number of words of a device manager that the layout check reads.
pub const CHECKED_WORDS: usize = 24usize;

/// How a C++ vector of the game lays out its allocator and its three
/// pointers.
#[derive(Clone, Copy, Debug, PartialEq, Eq, Structural)]
pub enum VecLayout {
    /// Allocator first, then `first`, `last` and `end` (later toolchains).
    AllocatorFirst,
    /// `first`, `last` and `end`, then the allocator (MSVC 2012, Dark Souls 3).
    AllocatorLast,
}

/// Why the device manager was not found.
#[derive(Clone, Debug)]
pub enum FindError {
    /// The image's sections could not be read; the text says why.
    PeSection(String),
    /// No slot of `.data` points at something shaped like a device manager.
    Instance,
}

/// `start <= p < end`.
pub open spec fn in_range(p: u64, start: u64, end: u64) -> bool {
    start <= p && p < end
}

/// Aligned for a pointer-sized read.
pub open spec fn is_aligned(p: u64) -> bool {
    p % 8 == 0
}

/// The word offset of the allocator within a vector, and of its first
/// pointer.
pub open spec fn alloc_offset(layout: VecLayout) -> int {
    match layout {
        VecLayout::AllocatorFirst => 0,
        VecLayout::AllocatorLast => 3,
    }
}

pub open spec fn first_offset(layout: VecLayout) -> int {
    match layout {
        VecLayout::AllocatorFirst => 1,
        VecLayout::AllocatorLast => 0,
    }
}

/// The vector at word `o` uses allocator `alloc`, and its three pointers
/// are aligned and ordered.
pub open spec fn vec_plausible(w: Seq<u64>, o: int, layout: VecLayout, alloc: u64) -> bool {
    let first = w[o + first_offset(layout)];
    let last = w[o + first_offset(layout) + 1];
    let end = w[o + first_offset(layout) + 2];
    &&& w[o + alloc_offset(layout)] == alloc
    &&& is_aligned(first) && is_aligned(last) && is_aligned(end)
    &&& first <= last && last <= end
}

/// The words of a candidate object look like a device manager: the first
/// vector's allocator is aligned and in `.data`; all five vectors (at words
/// 0, 4, 9, 13 and 17) share it and are well formed; the disk device (word
/// 8) and the two archive SPIs (words 21 and 22) are non-null and aligned;
/// and the mutex vtable (word 23) is aligned and in `.rdata`.
pub open spec fn layout_plausible(
    w: Seq<u64>,
    layout: VecLayout,
    data_start: u64,
    data_end: u64,
    rdata_start: u64,
    rdata_end: u64,
) -> bool {
    let alloc = w[alloc_offset(layout)];
    &&& is_aligned(alloc) && in_range(alloc, data_start, data_end)
    &&& vec_plausible(w, 0, layout, alloc)
    &&& vec_plausible(w, 4, layout, alloc)
    &&& vec_plausible(w, 9, layout, alloc)
    &&& vec_plausible(w, 13, layout, alloc)
    &&& vec_plausible(w, 17, layout, alloc)
    &&& w[8] != 0 && is_aligned(w[8])
    &&& w[21] != 0 && is_aligned(w[21])
    &&& w[22] != 0 && is_aligned(w[22])
    &&& is_aligned(w[23]) && in_range(w[23], rdata_start, rdata_end)
}

fn vec_check(w: &[u64], o: usize, layout: VecLayout, alloc: u64) -> (r: bool)
    requires
        o + 4 <= w@.len(),
    ensures
        r == vec_plausible(w@, o as int, layout, alloc),
{
    let n: usize = w.len();
    assert(o + 4 <= n);
    let (a, f) = match layout {
        VecLayout::AllocatorFirst => (o, o + 1),
        VecLayout::AllocatorLast => (o + 3, o),
    };
    if w[a] != alloc {
        return false;
    }
    let first = w[f];
    let last = w[f + 1];
    let end = w[f + 2];
    if first % 8 != 0 || last % 8 != 0 || end % 8 != 0 {
        return false;
    }
    if first > last || last > end {
        return false;
    }
    true
}

/// Checks whether the words of a candidate object look like a device
/// manager, as [`layout_plausible`] says.
pub fn verify_dl_device_manager_layout(
    w: &[u64],
    layout: VecLayout,
    data_start: u64,
    data_end: u64,
    rdata_start: u64,
    rdata_end: u64,
) -> (r: bool)
    requires
        w@.len() >= CHECKED_WORDS,
    ensures
        r == layout_plausible(w@, layout, data_start, data_end, rdata_start, rdata_end),
{
    let alloc = match layout {
        VecLayout::AllocatorFirst => w[0],
        VecLayout::AllocatorLast => w[3],
    };
    if alloc % 8 != 0 || !(data_start <= alloc && alloc < data_end) {
        return false;
    }
    if !vec_check(w, 0, layout, alloc) || !vec_check(w, 4, layout, alloc) || !vec_check(
        w,
        9,
        layout,
        alloc,
    ) || !vec_check(w, 13, layout, alloc) || !vec_check(w, 17, layout, alloc) {
        return false;
    }
    if w[8] == 0 || w[8] % 8 != 0 {
        return false;
    }
    if w[21] == 0 || w[21] % 8 != 0 {
        return false;
    }
    if w[22] == 0 || w[22] % 8 != 0 {
        return false;
    }
    w[23] % 8 == 0 && rdata_start <= w[23] && w[23] < rdata_end
}

/// The first pointer-aligned address at or after `start`.
pub open spec fn align_up(start: u64) -> int {
    if start % 8 == 0 {
        start as int
    } else {
        start + (8 - start % 8)
    }
}

/// The number of slots the scan reads: one for each aligned address from
/// `base` up to, and including, the first aligned address at or past the end
/// of `.data`.
pub open spec fn slot_count(base: int, data_end: u64) -> int {
    (data_end + 8 - base + 7) / 8
}

/// Whether the candidate in slot `k` is accepted: the whole object lies
/// inside `.data`, it is aligned, and its words look like a device manager.
pub open spec fn candidate_accepted(
    mem: Seq<u64>,
    base: int,
    k: int,
    layout: VecLayout,
    data_start: u64,
    data_end: u64,
    rdata_start: u64,
    rdata_end: u64,
) -> bool {
    let c = mem[k];
    let last_byte = ((c + DEVICE_MANAGER_SIZE - 1) % 0x1_0000_0000_0000_0000) as u64;
    &&& in_range(last_byte, data_start, data_end)
    &&& in_range(c, data_start, data_end)
    &&& is_aligned(c)
    &&& layout_plausible(
        mem.subrange((c - base) / 8, (c - base) / 8 + CHECKED_WORDS),
        layout,
        data_start,
        data_end,
        rdata_start,
        rdata_end,
    )
}

/// Scans the slots of `.data` for the device manager and returns its
/// address: the candidate of the first slot that is accepted. `mem` holds
/// the words at `base`, `base + 8`, and so on, where `base` is the first
/// aligned address of `.data`; the scan reads one slot at or past the end of
/// the section. The scan steps from the slot before `base`, so when `base`
/// is address 0 that step wraps to the top of the address space and no slot
/// is read.
///
/// A section's range never ends before it starts, and user-space addresses
/// stay far below the top of the 64-bit address space, which keeps the
/// address arithmetic of the scan, up to one object past the section's end,
/// from wrapping.
pub fn find_device_manager(
    mem: &[u64],
    data_start: u64,
    data_end: u64,
    rdata_start: u64,
    rdata_end: u64,
    layout: VecLayout,
) -> (r: Result<u64, FindError>)
    requires
        data_start <= data_end,
        data_end <= u64::MAX - 256,
        mem@.len() == slot_count(align_up(data_start), data_end),
    ensures
        match r {
            Ok(c) => align_up(data_start) != 0 && exists|k: int|
                0 <= k < mem@.len() && mem@[k] == c && candidate_accepted(
                    mem@,
                    align_up(data_start),
                    k,
                    layout,
                    data_start,
                    data_end,
                    rdata_start,
                    rdata_end,
                ) && forall|j: int|
                    0 <= j < k ==> !candidate_accepted(
                        mem@,
                        align_up(data_start),
                        j,
                        layout,
                        data_start,
                        data_end,
                        rdata_start,
                        rdata_end,
                    ),
            Err(FindError::Instance) => align_up(data_start) == 0 || forall|k: int|
                0 <= k < mem@.len() ==> !candidate_accepted(
                    mem@,
                    align_up(data_start),
                    k,
                    layout,
                    data_start,
                    data_end,
                    rdata_start,
                    rdata_end,
                ),
            Err(FindError::PeSection(_)) => false,
        },
{
    let base: u64 = if data_start % 8 == 0 {
        data_start
    } else {
        data_start + (8 - data_start % 8)
    };
    if base == 0 {
        return Err(FindError::Instance);
    }
    let n: usize = mem.len();
    let mut k: usize = 0;
    while k < n
        invariant
            n == mem@.len(),
            k <= n,
            base == align_up(data_start),
            base % 8 == 0,
            data_start <= base < data_start + 8,
            data_start <= data_end,
            base != 0,
            data_end <= u64::MAX - 256,
            n == slot_count(base as int, data_end),
            forall|j: int|
                0 <= j < k ==> !candidate_accepted(
                    mem@,
                    base as int,
                    j,
                    layout,
                    data_start,
                    data_end,
                    rdata_start,
                    rdata_end,
                ),
        decreases n - k,
    {
        let c = mem[k];
        let last_byte = c.wrapping_add(DEVICE_MANAGER_SIZE - 1);
        if !(data_start <= last_byte && last_byte < data_end) || !(data_start <= c && c
            < data_end) {
            k = k + 1;
            continue;
        }
        if c % 8 != 0 {
            k = k + 1;
            continue;
        }
        assert(c + DEVICE_MANAGER_SIZE - 1 < data_end + 0x1_0000_0000_0000_0000);
        assert(c + DEVICE_MANAGER_SIZE - 1 == last_byte) by {
            assert(c < data_end);
        }
        let idx: usize = ((c - base) / 8) as usize;
        assert(idx + CHECKED_WORDS <= n) by {
            assert(c + 231 < data_end);
            assert((c - base) % 8 == 0) by (nonlinear_arith)
                requires
                    c % 8 == 0,
                    base % 8 == 0,
                    base <= c,
            ;
        }
        let words = slice_range(mem, idx, idx + CHECKED_WORDS);
        if verify_dl_device_manager_layout(
            words,
            layout,
            data_start,
            data_end,
            rdata_start,
            rdata_end,
        ) {
            return Ok(c);
        }
        k = k + 1;
    }
    Err(FindError::Instance)
}

fn slice_range(s: &[u64], from: usize, to: usize) -> (r: &[u64])
    requires
        from <= to <= s@.len(),
    ensures
        r@ == s@.subrange(from as int, to as int),
{
    vstd::slice::slice_subrange(s, from, to)
}

/// The word index of a vector's allocator and of its `first` pointer, for a
/// vector at word `o`.
pub open spec fn vec_words(o: int, layout: VecLayout) -> (int, int) {
    match layout {
        VecLayout::AllocatorFirst => (o, o + 1),
        VecLayout::AllocatorLast => (o + 3, o),
    }
}

/// Every vector of an accepted object is checked: each of the five vectors
/// at words 0 (devices), 4 (archive SPIs), 9 (virtual roots), 13 (BND3
/// mounts) and 17 (BND4 mounts) holds the allocator of the first vector,
/// and its `first`, `last` and `end` pointers are 8-aligned and in order;
/// the shared allocator is 8-aligned and inside `.data`, the disk device
/// and both archive SPIs are non-null and aligned, and the mutex vtable is
/// aligned and inside `.rdata`.
pub proof fn law_accepted_layout_checks_every_vector(
    w: Seq<u64>,
    layout: VecLayout,
    data_start: u64,
    data_end: u64,
    rdata_start: u64,
    rdata_end: u64,
    o: int,
)
    requires
        w.len() >= 24,
        layout_plausible(w, layout, data_start, data_end, rdata_start, rdata_end),
        o == 0 || o == 4 || o == 9 || o == 13 || o == 17,
    ensures
        w[vec_words(o, layout).0] == w[vec_words(0, layout).0],
        w[vec_words(0, layout).0] % 8 == 0,
        data_start <= w[vec_words(0, layout).0] < data_end,
        w[vec_words(o, layout).1] % 8 == 0,
        w[vec_words(o, layout).1 + 1] % 8 == 0,
        w[vec_words(o, layout).1 + 2] % 8 == 0,
        w[vec_words(o, layout).1] <= w[vec_words(o, layout).1 + 1] <= w[vec_words(o, layout).1
            + 2],
        w[8] != 0 && w[8] % 8 == 0,
        w[21] != 0 && w[21] % 8 == 0,
        w[22] != 0 && w[22] % 8 == 0,
        w[23] % 8 == 0 && rdata_start <= w[23] < rdata_end,
{
}

/// A slot of the scan is accepted only when the whole object it points at
/// lies in `.data`, is aligned, and has all five vectors sharing one
/// allocator with aligned, ordered pointers: the words of the object are
/// read from the scanned memory at the object's own address.
pub proof fn law_accepted_candidate_checks_every_vector(
    mem: Seq<u64>,
    base: int,
    k: int,
    layout: VecLayout,
    data_start: u64,
    data_end: u64,
    rdata_start: u64,
    rdata_end: u64,
    o: int,
)
    requires
        0 <= k < mem.len(),
        data_start <= data_end <= u64::MAX - 256,
        base == align_up(data_start),
        mem.len() == slot_count(base, data_end),
        candidate_accepted(mem, base, k, layout, data_start, data_end, rdata_start, rdata_end),
        o == 0 || o == 4 || o == 9 || o == 13 || o == 17,
    ensures
        data_start <= mem[k] < data_end,
        mem[k] + DEVICE_MANAGER_SIZE <= data_end,
        mem[k] % 8 == 0,
        ({
            let i = (mem[k] - base) / 8;
            &&& 0 <= i && i + 24 <= mem.len()
            &&& mem[i + vec_words(o, layout).0] == mem[i + vec_words(0, layout).0]
            &&& mem[i + vec_words(o, layout).1] % 8 == 0
            &&& mem[i + vec_words(o, layout).1 + 1] % 8 == 0
            &&& mem[i + vec_words(o, layout).1 + 2] % 8 == 0
            &&& mem[i + vec_words(o, layout).1] <= mem[i + vec_words(o, layout).1 + 1]
                <= mem[i + vec_words(o, layout).1 + 2]
        }),
{
    let c = mem[k];
    assert(c + DEVICE_MANAGER_SIZE - 1 < 0x1_0000_0000_0000_0000);
    assert(base % 8 == 0 && data_start <= base < data_start + 8);
    assert(base <= c) by (nonlinear_arith)
        requires
            c % 8 == 0,
            base % 8 == 0,
            data_start <= c,
            data_start <= base < data_start + 8,
    ;
    assert(mem.len() * 8 + base >= data_end + 8) by (nonlinear_arith)
        requires
            mem.len() == (data_end + 8 - base + 7) / 8,
            base <= data_end + 8,
    ;
    let i = (c - base) / 8;
    assert((c - base) % 8 == 0) by (nonlinear_arith)
        requires
            c % 8 == 0,
            base % 8 == 0,
            base <= c,
    ;
    assert(i + 24 <= mem.len()) by (nonlinear_arith)
        requires
            i == (c - base) / 8,
            (c - base) % 8 == 0,
            c + 231 < data_end,
            mem.len() * 8 + base >= data_end + 8,
            base <= c,
    ;
    let w = mem.subrange(i, i + 24);
    law_accepted_layout_checks_every_vector(
        w,
        layout,
        data_start,
        data_end,
        rdata_start,
        rdata_end,
        o,
    );
    assert(w[vec_words(o, layout).0] == mem[i + vec_words(o, layout).0]);
    assert(w[vec_words(0, layout).0] == mem[i + vec_words(0, layout).0]);
    assert(w[vec_words(o, layout).1] == mem[i + vec_words(o, layout).1]);
    assert(w[vec_words(o, layout).1 + 1] == mem[i + vec_words(o, layout).1 + 1]);
    assert(w[vec_words(o, layout).1 + 2] == mem[i + vec_words(o, layout).1 + 2]);
}

} // verus!
