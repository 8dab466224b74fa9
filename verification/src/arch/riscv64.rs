//! Events of RISC-V 64 (standard, common and SiFive).

use vstd::prelude::*;
use super::{
    append_events, events_view, generic_events_spec, get_generic_events, merge_by_name,
    merge_events, table_event, PmuEvent, PmuEventView,
};

verus! {

pub open spec fn riscv_standard_events_spec() -> Seq<PmuEventView> {
    seq![
        table_event("cycles"@, seq![], "Total number of cycles"@, "RISC-V hardware event"@),
        table_event("time"@, seq![], "Timer value"@, "RISC-V hardware event"@),
        table_event("instret"@, seq![], "Number of instructions retired"@, "RISC-V hardware event"@),
    ]
}

/// The counters that the privileged specification defines.
pub fn get_riscv_standard_events() -> (r: Vec<PmuEvent>)
    ensures
        events_view(r@) == riscv_standard_events_spec(),
{
    let mut v: Vec<PmuEvent> = Vec::new();
    v.push(PmuEvent::new("cycles", "Total number of cycles").with_category("RISC-V hardware event"));
    v.push(PmuEvent::new("time", "Timer value").with_category("RISC-V hardware event"));
    v.push(PmuEvent::new("instret", "Number of instructions retired").with_category("RISC-V hardware event"));
    assert(events_view(v@) =~= riscv_standard_events_spec());
    v
}

pub open spec fn riscv_common_events_spec() -> Seq<PmuEventView> {
    seq![
        table_event("l1d_read_access"@, seq![], "Level 1 data cache read accesses"@, "RISC-V cache event"@),
        table_event("l1d_read_miss"@, seq![], "Level 1 data cache read misses"@, "RISC-V cache event"@),
        table_event("l1d_write_access"@, seq![], "Level 1 data cache write accesses"@, "RISC-V cache event"@),
        table_event("l1d_write_miss"@, seq![], "Level 1 data cache write misses"@, "RISC-V cache event"@),
        table_event("l1i_read_access"@, seq![], "Level 1 instruction cache read accesses"@, "RISC-V cache event"@),
        table_event("l1i_read_miss"@, seq![], "Level 1 instruction cache read misses"@, "RISC-V cache event"@),
        table_event("l2_read_access"@, seq![], "Level 2 cache read accesses"@, "RISC-V cache event"@),
        table_event("l2_read_miss"@, seq![], "Level 2 cache read misses"@, "RISC-V cache event"@),
        table_event("l2_write_access"@, seq![], "Level 2 cache write accesses"@, "RISC-V cache event"@),
        table_event("l2_write_miss"@, seq![], "Level 2 cache write misses"@, "RISC-V cache event"@),
        table_event("dtlb_read_miss"@, seq![], "Data TLB read misses"@, "RISC-V TLB event"@),
        table_event("dtlb_write_miss"@, seq![], "Data TLB write misses"@, "RISC-V TLB event"@),
        table_event("itlb_read_miss"@, seq![], "Instruction TLB read misses"@, "RISC-V TLB event"@),
        table_event("branch_miss"@, seq![], "Branch mispredictions"@, "RISC-V branch event"@),
        table_event("branch_count"@, seq![], "Branch instructions executed"@, "RISC-V branch event"@),
        table_event("integer_ops"@, seq![], "Integer operations"@, "RISC-V execution event"@),
        table_event("fp_ops"@, seq![], "Floating-point operations"@, "RISC-V execution event"@),
        table_event("mem_load"@, seq![], "Memory load operations"@, "RISC-V memory event"@),
        table_event("mem_store"@, seq![], "Memory store operations"@, "RISC-V memory event"@),
        table_event("mem_access"@, seq![], "Total memory accesses"@, "RISC-V memory event"@),
    ]
}

/// Events that common implementations provide.
pub fn get_riscv_common_events() -> (r: Vec<PmuEvent>)
    ensures
        events_view(r@) == riscv_common_events_spec(),
{
    let mut v: Vec<PmuEvent> = Vec::new();
    v.push(PmuEvent::new("l1d_read_access", "Level 1 data cache read accesses").with_category("RISC-V cache event"));
    v.push(PmuEvent::new("l1d_read_miss", "Level 1 data cache read misses").with_category("RISC-V cache event"));
    v.push(PmuEvent::new("l1d_write_access", "Level 1 data cache write accesses").with_category("RISC-V cache event"));
    v.push(PmuEvent::new("l1d_write_miss", "Level 1 data cache write misses").with_category("RISC-V cache event"));
    v.push(PmuEvent::new("l1i_read_access", "Level 1 instruction cache read accesses").with_category("RISC-V cache event"));
    v.push(PmuEvent::new("l1i_read_miss", "Level 1 instruction cache read misses").with_category("RISC-V cache event"));
    v.push(PmuEvent::new("l2_read_access", "Level 2 cache read accesses").with_category("RISC-V cache event"));
    v.push(PmuEvent::new("l2_read_miss", "Level 2 cache read misses").with_category("RISC-V cache event"));
    v.push(PmuEvent::new("l2_write_access", "Level 2 cache write accesses").with_category("RISC-V cache event"));
    v.push(PmuEvent::new("l2_write_miss", "Level 2 cache write misses").with_category("RISC-V cache event"));
    v.push(PmuEvent::new("dtlb_read_miss", "Data TLB read misses").with_category("RISC-V TLB event"));
    v.push(PmuEvent::new("dtlb_write_miss", "Data TLB write misses").with_category("RISC-V TLB event"));
    v.push(PmuEvent::new("itlb_read_miss", "Instruction TLB read misses").with_category("RISC-V TLB event"));
    v.push(PmuEvent::new("branch_miss", "Branch mispredictions").with_category("RISC-V branch event"));
    v.push(PmuEvent::new("branch_count", "Branch instructions executed").with_category("RISC-V branch event"));
    v.push(PmuEvent::new("integer_ops", "Integer operations").with_category("RISC-V execution event"));
    v.push(PmuEvent::new("fp_ops", "Floating-point operations").with_category("RISC-V execution event"));
    v.push(PmuEvent::new("mem_load", "Memory load operations").with_category("RISC-V memory event"));
    v.push(PmuEvent::new("mem_store", "Memory store operations").with_category("RISC-V memory event"));
    v.push(PmuEvent::new("mem_access", "Total memory accesses").with_category("RISC-V memory event"));
    assert(events_view(v@) =~= riscv_common_events_spec());
    v
}

pub open spec fn sifive_events_spec() -> Seq<PmuEventView> {
    seq![
        table_event("icache_req"@, seq![], "Instruction cache requests"@, "SiFive event"@),
        table_event("icache_miss"@, seq![], "Instruction cache misses"@, "SiFive event"@),
        table_event("dcache_req"@, seq![], "Data cache requests"@, "SiFive event"@),
        table_event("dcache_miss"@, seq![], "Data cache misses"@, "SiFive event"@),
        table_event("itlb_miss"@, seq![], "Instruction TLB misses"@, "SiFive event"@),
        table_event("dtlb_miss"@, seq![], "Data TLB misses"@, "SiFive event"@),
        table_event("load_use_hazard"@, seq![], "Load-use hazards"@, "SiFive event"@),
        table_event("control_hazard"@, seq![], "Control hazards"@, "SiFive event"@),
        table_event("branch_miss"@, seq![], "Branch mispredictions"@, "SiFive event"@),
        table_event("mpu_region_miss"@, seq![], "Memory protection unit region misses"@, "SiFive event"@),
    ]
}

/// Events of SiFive cores.
pub fn get_sifive_events() -> (r: Vec<PmuEvent>)
    ensures
        events_view(r@) == sifive_events_spec(),
{
    let mut v: Vec<PmuEvent> = Vec::new();
    v.push(PmuEvent::new("icache_req", "Instruction cache requests").with_category("SiFive event"));
    v.push(PmuEvent::new("icache_miss", "Instruction cache misses").with_category("SiFive event"));
    v.push(PmuEvent::new("dcache_req", "Data cache requests").with_category("SiFive event"));
    v.push(PmuEvent::new("dcache_miss", "Data cache misses").with_category("SiFive event"));
    v.push(PmuEvent::new("itlb_miss", "Instruction TLB misses").with_category("SiFive event"));
    v.push(PmuEvent::new("dtlb_miss", "Data TLB misses").with_category("SiFive event"));
    v.push(PmuEvent::new("load_use_hazard", "Load-use hazards").with_category("SiFive event"));
    v.push(PmuEvent::new("control_hazard", "Control hazards").with_category("SiFive event"));
    v.push(PmuEvent::new("branch_miss", "Branch mispredictions").with_category("SiFive event"));
    v.push(PmuEvent::new("mpu_region_miss", "Memory protection unit region misses").with_category("SiFive event"));
    assert(events_view(v@) =~= sifive_events_spec());
    v
}

/// The built-in RISC-V events: generic, standard, common, then SiFive.
pub open spec fn riscv64_table_spec() -> Seq<PmuEventView> {
    generic_events_spec() + riscv_standard_events_spec() + riscv_common_events_spec()
        + sifive_events_spec()
}

/// The RISC-V events, merged by name with those that sysfs lists.
pub fn get_events(sysfs_events: Vec<PmuEvent>) -> (r: Vec<PmuEvent>)
    ensures
        events_view(r@) == merge_by_name(riscv64_table_spec(), events_view(sysfs_events@)),
{
    let mut events = get_generic_events();
    append_events(&mut events, get_riscv_standard_events());
    append_events(&mut events, get_riscv_common_events());
    append_events(&mut events, get_sifive_events());
    merge_events(&mut events, sysfs_events);
    events
}

} // verus!
