use vstd::prelude::*;

verus! {

/// Bytes left unused at the start of the heap region.
pub const HEAP_OFFSET: u64 = 4096000;

/// A range of physical memory from the boot memory map.
#[derive(Clone, Copy, Debug, PartialEq, Eq, Structural)]
pub struct MemoryRegion {
    pub start_addr: u64,
    pub end_addr: u64,
    pub usable: bool,
}

pub open spec fn region_size(r: MemoryRegion) -> int {
    r.end_addr - r.start_addr
}

/// `regions[i]` is the first of the largest usable regions.
pub open spec fn is_heap_region(regions: Seq<MemoryRegion>, i: int) -> bool {
    &&& 0 <= i < regions.len()
    &&& regions[i].usable
    &&& forall|j: int| 0 <= j < regions.len() && (#[trigger] regions[j]).usable ==> region_size(regions[j]) <= region_size(regions[i])
    &&& forall|j: int| 0 <= j < i && (#[trigger] regions[j]).usable ==> region_size(regions[j]) < region_size(regions[i])
}

/// The heap's start and end: the largest usable region (the first of
/// equal ones), less its first `HEAP_OFFSET` bytes. `None` when no region
/// is usable or the offset runs past the end of the address space.
pub fn find_heap_space(regions: &Vec<MemoryRegion>) -> (r: Option<(u64, u64)>)
    requires
        forall|i: int| 0 <= i < regions@.len() ==> (#[trigger] regions@[i]).start_addr <= regions@[i].end_addr,
    ensures
        r.is_none() <==> (forall|i: int| 0 <= i < regions@.len() ==> !(#[trigger] regions@[i]).usable)
            || exists|i: int| is_heap_region(regions@, i) && regions@[i].start_addr + HEAP_OFFSET > u64::MAX,
        r matches Some((start, end)) ==> exists|i: int| #![trigger regions@[i]] {
            &&& is_heap_region(regions@, i)
            &&& start == regions@[i].start_addr + HEAP_OFFSET
            &&& end == regions@[i].end_addr
        },
{
    let n = regions.len();
    let mut found: Option<usize> = None;
    let mut i: usize = 0;
    while i < n
        invariant
            n == regions@.len(),
            0 <= i <= n,
            forall|k: int| 0 <= k < regions@.len() ==> (#[trigger] regions@[k]).start_addr <= regions@[k].end_addr,
            found matches Some(f) ==> {
                &&& f < i
                &&& regions@[f as int].usable
                &&& forall|j: int| 0 <= j < i && (#[trigger] regions@[j]).usable ==> region_size(regions@[j]) <= region_size(regions@[f as int])
                &&& forall|j: int| 0 <= j < f && (#[trigger] regions@[j]).usable ==> region_size(regions@[j]) < region_size(regions@[f as int])
            },
            found.is_none() ==> forall|j: int| 0 <= j < i ==> !(#[trigger] regions@[j]).usable,
        decreases n - i,
    {
        let region = regions[i];
        if region.usable {
            match found {
                None => {
                    found = Some(i);
                },
                Some(f) => {
                    let best = regions[f];
                    if region.end_addr - region.start_addr > best.end_addr - best.start_addr {
                        found = Some(i);
                    }
                },
            }
        }
        i = i + 1;
    }
    match found {
        None => None,
        Some(f) => {
            let region = regions[f];
            proof {
                assert(is_heap_region(regions@, f as int));
                assert forall|i2: int| is_heap_region(regions@, i2) implies i2 == f by {
                    if i2 < f {
                        assert(region_size(regions@[i2]) < region_size(regions@[f as int]));
                    } else if i2 > f {
                        assert(region_size(regions@[f as int]) < region_size(regions@[i2]));
                    }
                }
            }
            match region.start_addr.checked_add(HEAP_OFFSET) {
                Some(start) => Some((start, region.end_addr)),
                None => None,
            }
        },
    }
}

} // verus!
