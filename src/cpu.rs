use vstd::prelude::*;
use crate::text::push_str;

verus! {

/// The CPU share of one processor, or of all of them together, in
/// hundredths of a percent.
pub struct CpuUsage {
    pub name: String,
    pub usage: u32,
}

/// The list of CPU figures as shown: the overall figure, named `overall`,
/// first, then one entry per processor in the provider's order.
pub fn with_overall(overall: u32, per_cpu: Vec<CpuUsage>) -> (r: Vec<CpuUsage>)
    ensures
        r@.len() == per_cpu@.len() + 1,
        r@[0].name@ == "overall"@,
        r@[0].usage == overall,
        r@.skip(1) == per_cpu@,
{
    let mut name = String::new();
    push_str(&mut name, "overall");
    let mut r: Vec<CpuUsage> = Vec::new();
    r.push(CpuUsage { name, usage: overall });
    let mut rest = per_cpu;
    r.append(&mut rest);
    assert(r@.skip(1) =~= per_cpu@);
    r
}

} // verus!
