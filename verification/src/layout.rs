//! The memory layout of one image row: its size in bytes and the alignment
//! that keeps two rows off one cache line.
//!
//! The line size is asked of the processor; where the processor does not
//! tell, a fallback alignment is used.

use vstd::prelude::*;

verus! {

/// The alignment of a row where the processor reports no line size.
pub const FALLBACK_ALIGN: usize = 64;

/// The largest line size that a processor can report.
pub const MAX_LINE_SIZE: usize = 4096;

/// One cache of the processor: its level in the hierarchy and the size of
/// its coherency line in bytes.
#[derive(Clone, Copy, Debug, PartialEq, Eq)]
pub struct CacheLevel {
    pub level: u8,
    pub line_size: usize,
}

/// Size and alignment of the block of memory that holds one row.
#[derive(Clone, Copy, Debug, PartialEq, Eq)]
pub struct RowLayout {
    pub size: usize,
    pub align: usize,
}

/// Whether `n` is a power of two.
pub open spec fn is_power_of_two(n: int) -> bool
    decreases n,
{
    if n <= 0 {
        false
    } else if n == 1 {
        true
    } else {
        n % 2 == 0 && is_power_of_two(n / 2)
    }
}

/// Whether a block of `size` bytes can be aligned to `align`: the alignment
/// is a power of two, and the size rounded up to a multiple of it does not
/// exceed the largest signed machine word.
pub open spec fn layout_fits(size: int, align: int) -> bool {
    is_power_of_two(align) && size + align - 1 <= isize::MAX
}

/// The layout of a row of `width` pixels of `bytes_per_pixel` bytes each,
/// aligned to the line size `line` or, without one, to the fallback.
pub open spec fn row_layout_of(bytes_per_pixel: usize, width: usize, line: Option<usize>)
    -> Option<RowLayout> {
    let size = bytes_per_pixel * width;
    let align = match line {
        Some(n) => n,
        None => FALLBACK_ALIGN,
    };
    if layout_fits(size, align as int) {
        Some(RowLayout { size: size as usize, align })
    } else {
        None
    }
}

/// Whether entry `i` is the first cache of level 1.
pub open spec fn is_first_level_one(caches: Seq<CacheLevel>, i: int) -> bool {
    &&& 0 <= i < caches.len()
    &&& caches[i].level == 1
    &&& forall|j: int| 0 <= j < i ==> (#[trigger] caches[j]).level != 1
}

/// Lists the caches that `raw_cpuid::CpuId::get_cache_parameters` reports
/// for this processor, each with what `CacheParameter::level` and
/// `CacheParameter::coherency_line_size` return for it; `None` where the
/// processor offers no such report. Taken on trust: a level is a field of
/// three bits, and a line size a field of twelve bits plus one.
#[verifier::external_body]
fn cache_levels() -> (caches: Option<Vec<CacheLevel>>)
    ensures
        caches matches Some(v) ==> forall|i: int|
            0 <= i < v.len() ==> (#[trigger] v[i]).level <= 7 && 1 <= v[i].line_size
                <= MAX_LINE_SIZE,
{
    match raw_cpuid::CpuId::new().get_cache_parameters() {
        Some(found) => {
            let mut caches = Vec::new();
            for c in found {
                caches.push(CacheLevel { level: c.level(), line_size: c.coherency_line_size() });
            }
            Some(caches)
        },
        None => None,
    }
}

/// The line size of the first cache of level 1 in `caches`, if there is one.
pub fn level_one_line(caches: &Vec<CacheLevel>) -> (line: Option<usize>)
    ensures
        line is None <==> forall|i: int| 0 <= i < caches.len() ==> (#[trigger] caches[i]).level != 1,
        line matches Some(n) ==> exists|i: int|
            is_first_level_one(caches@, i) && n == caches[i].line_size,
{
    let mut i: usize = 0;
    while i < caches.len()
        invariant
            i <= caches.len(),
            forall|j: int| 0 <= j < i ==> (#[trigger] caches[j]).level != 1,
        decreases caches.len() - i,
    {
        if caches[i].level == 1 {
            assert(is_first_level_one(caches@, i as int));
            return Some(caches[i].line_size);
        }
        i += 1;
    }
    None
}

/// The size in bytes of a line of the first-level cache of this processor,
/// or `None` where the processor does not tell.
pub fn cache_line_size() -> (line: Option<usize>)
    ensures
        line matches Some(n) ==> 1 <= n <= MAX_LINE_SIZE,
{
    match cache_levels() {
        Some(caches) => level_one_line(&caches),
        None => None,
    }
}

/// Tells whether `n` is a power of two.
pub fn power_of_two(n: usize) -> (yes: bool)
    ensures
        yes == is_power_of_two(n as int),
{
    if n == 0 {
        return false;
    }
    let mut m: usize = n;
    while m % 2 == 0
        invariant
            m >= 1,
            is_power_of_two(m as int) == is_power_of_two(n as int),
        decreases m,
    {
        m = m / 2;
    }
    m == 1
}

/// Lays out a row for a processor whose line size is `line`. `None` where
/// the row cannot be laid out: its size in bytes exceeds what the machine
/// can address, or the line size is no power of two.
pub fn row_layout_for(bytes_per_pixel: usize, width: usize, line: Option<usize>) -> (layout: Option<
    RowLayout,
>)
    ensures
        layout == row_layout_of(bytes_per_pixel, width, line),
{
    let align: usize = match line {
        Some(n) => n,
        None => FALLBACK_ALIGN,
    };
    if !power_of_two(align) {
        return None;
    }
    let limit: usize = isize::MAX as usize;
    match bytes_per_pixel.checked_mul(width) {
        Some(size) => {
            if align - 1 <= limit && size <= limit - (align - 1) {
                Some(RowLayout { size, align })
            } else {
                None
            }
        },
        None => None,
    }
}

/// Lays out a row of `width` pixels of `bytes_per_pixel` bytes each for the
/// processor at hand: aligned to its line size, or to the fallback where it
/// reports none.
pub fn row_layout(bytes_per_pixel: usize, width: usize) -> (layout: Option<RowLayout>)
    ensures
        exists|line: Option<usize>|
            {
                &&& line matches Some(n) ==> 1 <= n <= MAX_LINE_SIZE
                &&& layout == #[trigger] row_layout_of(bytes_per_pixel, width, line)
            },
{
    let line = cache_line_size();
    row_layout_for(bytes_per_pixel, width, line)
}

} // verus!
