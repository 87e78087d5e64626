//! The direct map: all physical memory appears at a fixed offset.
use vstd::prelude::*;

verus! {

/// The direct map.
#[derive(Clone, Copy, PartialEq, Eq, Structural, Debug)]
pub struct DirectMap {
    pub offset: u64,
}

/// The direct map at an offset.
pub fn init(hhdm: u64) -> (m: DirectMap)
    ensures
        m.offset == hhdm,
        m == map_at(hhdm),
{
    DirectMap { offset: hhdm }
}

/// The address at which a physical address appears.
pub fn phys_to_virt(map: &DirectMap, phys: u64) -> (virt: u64)
    requires
        map.offset + phys <= u64::MAX,
    ensures
        virt == map.offset + phys,
        virt == appears_at(*map, phys as int),
{
    map.offset + phys
}

/// The offset of the map.
pub fn hhdm_offset(map: &DirectMap) -> (r: u64)
    ensures
        r == map.offset,
        r == appears_at(*map, 0),
{
    map.offset
}

/// Where a physical address appears.
pub open spec fn appears_at(map: DirectMap, phys: int) -> int {
    map.offset + phys
}

/// The map of an offset.
pub open spec fn map_at(hhdm: u64) -> DirectMap {
    DirectMap { offset: hhdm }
}

/// All of physical memory appears in one piece, in order, from the offset on: what lies
/// apart by some bytes appears apart by as many.
pub proof fn law_one_piece(hhdm: u64, a: int, b: int)
    ensures
        appears_at(map_at(hhdm), 0) == hhdm,
        appears_at(map_at(hhdm), b) - appears_at(map_at(hhdm), a) == b - a,
{
}

} // verus!
