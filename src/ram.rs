use vstd::prelude::*;

verus! {

/// Memory and swap figures of the host, in bytes.
pub struct Ram {
    pub total: u64,
    pub free: u64,
    pub available: u64,
    pub used: u64,
    pub total_swap: u64,
    pub free_swap: u64,
    pub used_swap: u64,
}

impl Ram {
    /// The figures that a consistent reading satisfies: no memory figure
    /// exceeds the total, and used and free swap add up to the swap total.
    pub open spec fn wf(&self) -> bool {
        &&& self.free <= self.total
        &&& self.available <= self.total
        &&& self.used <= self.total
        &&& self.free_swap + self.used_swap == self.total_swap
    }

    /// A reading with every figure at zero, used before the first sample.
    pub fn new() -> (r: Ram)
        ensures
            r.total == 0 && r.free == 0 && r.available == 0 && r.used == 0,
            r.total_swap == 0 && r.free_swap == 0 && r.used_swap == 0,
            r.wf(),
    {
        Ram { total: 0, free: 0, available: 0, used: 0, total_swap: 0, free_swap: 0, used_swap: 0 }
    }
}

} // verus!
