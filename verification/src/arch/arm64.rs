//! Events of ARM64 (Cortex and Neoverse cores).

use vstd::prelude::*;
use super::{
    append_events, events_view, generic_events_spec, get_generic_events, merge_by_name,
    merge_events, table_event, PmuEvent, PmuEventView,
};

verus! {

pub open spec fn cortex_events_spec() -> Seq<PmuEventView> {
    seq![
        table_event("sw_incr"@, seq![], "Software increment of performance counter"@, "ARM hardware event"@),
        table_event("l1d_cache_refill"@, seq![], "Level 1 data cache refill"@, "ARM hardware event"@),
        table_event("l1d_cache"@, seq![], "Level 1 data cache access"@, "ARM hardware event"@),
        table_event("ld_retired"@, seq![], "Instruction architecturally executed, condition code check pass, load"@, "ARM hardware event"@),
        table_event("st_retired"@, seq![], "Instruction architecturally executed, condition code check pass, store"@, "ARM hardware event"@),
        table_event("inst_retired"@, seq![], "Instruction architecturally executed"@, "ARM hardware event"@),
        table_event("exc_taken"@, seq![], "Exception taken"@, "ARM hardware event"@),
        table_event("exc_return"@, seq![], "Exception return"@, "ARM hardware event"@),
        table_event("cid_write_retired"@, seq![], "Instruction architecturally executed, condition code check pass, write to CONTEXTIDR"@, "ARM hardware event"@),
        table_event("pc_write_retired"@, seq![], "Instruction architecturally executed, software change of the PC"@, "ARM hardware event"@),
        table_event("br_immed_retired"@, seq![], "Instruction architecturally executed, immediate branch"@, "ARM hardware event"@),
        table_event("br_return_retired"@, seq![], "Instruction architecturally executed, condition code check pass, return branch"@, "ARM hardware event"@),
        table_event("unaligned_ldst_retired"@, seq![], "Instruction architecturally executed, unaligned load or store"@, "ARM hardware event"@),
        table_event("br_mis_pred"@, seq![], "Mispredicted or not predicted branch speculatively executed"@, "ARM hardware event"@),
        table_event("cpu_cycles"@, seq![], "Cycle"@, "ARM hardware event"@),
        table_event("br_pred"@, seq![], "Predictable branch speculatively executed"@, "ARM hardware event"@),
        table_event("mem_access"@, seq![], "Data memory access"@, "ARM hardware event"@),
        table_event("l1i_cache_refill"@, seq![], "Level 1 instruction cache refill"@, "ARM hardware event"@),
        table_event("l1d_cache_wb"@, seq![], "Level 1 data cache write-back"@, "ARM hardware event"@),
        table_event("l2d_cache_refill"@, seq![], "Level 2 data cache refill"@, "ARM hardware event"@),
        table_event("l2d_cache"@, seq![], "Level 2 data cache access"@, "ARM hardware event"@),
        table_event("l2d_cache_wb"@, seq![], "Level 2 data cache write-back"@, "ARM hardware event"@),
        table_event("bus_access"@, seq![], "Bus access"@, "ARM hardware event"@),
        table_event("memory_error"@, seq![], "Local memory error"@, "ARM hardware event"@),
        table_event("inst_spec"@, seq![], "Instruction speculatively executed"@, "ARM hardware event"@),
        table_event("ttbr_write_retired"@, seq![], "Instruction architecturally executed, condition code check pass, write to TTBR"@, "ARM hardware event"@),
        table_event("bus_cycles"@, seq![], "Bus cycle"@, "ARM hardware event"@),
        table_event("l1d_cache_allocate"@, seq![], "Level 1 data cache allocation without refill"@, "ARM hardware event"@),
        table_event("l2d_cache_allocate"@, seq![], "Level 2 data cache allocation without refill"@, "ARM hardware event"@),
        table_event("br_retired"@, seq![], "Instruction architecturally executed, branch"@, "ARM hardware event"@),
        table_event("br_mis_pred_retired"@, seq![], "Instruction architecturally executed, mispredicted branch"@, "ARM hardware event"@),
        table_event("stall_frontend"@, seq![], "No operation issued because of the frontend"@, "ARM hardware event"@),
        table_event("stall_backend"@, seq![], "No operation issued because of the backend"@, "ARM hardware event"@),
        table_event("l2d_tlb_refill"@, seq![], "Level 2 data TLB refill"@, "ARM hardware event"@),
        table_event("l1i_tlb_refill"@, seq![], "Level 1 instruction TLB refill"@, "ARM hardware event"@),
        table_event("l1d_tlb_refill"@, seq![], "Level 1 data TLB refill"@, "ARM hardware event"@),
        table_event("l1i_tlb"@, seq![], "Level 1 instruction TLB access"@, "ARM hardware event"@),
        table_event("l1d_tlb"@, seq![], "Level 1 data TLB access"@, "ARM hardware event"@),
        table_event("l3d_cache_refill"@, seq![], "Level 3 data cache refill"@, "ARM hardware event"@),
        table_event("l3d_cache"@, seq![], "Level 3 data cache access"@, "ARM hardware event"@),
        table_event("l3d_cache_wb"@, seq![], "Level 3 data cache write-back"@, "ARM hardware event"@),
        table_event("l2d_tlb"@, seq![], "Level 2 data TLB access"@, "ARM hardware event"@),
    ]
}

/// Events of the Cortex-A cores.
pub fn get_cortex_events() -> (r: Vec<PmuEvent>)
    ensures
        events_view(r@) == cortex_events_spec(),
{
    let mut v: Vec<PmuEvent> = Vec::new();
    v.push(PmuEvent::new("sw_incr", "Software increment of performance counter").with_category("ARM hardware event"));
    v.push(PmuEvent::new("l1d_cache_refill", "Level 1 data cache refill").with_category("ARM hardware event"));
    v.push(PmuEvent::new("l1d_cache", "Level 1 data cache access").with_category("ARM hardware event"));
    v.push(PmuEvent::new("ld_retired", "Instruction architecturally executed, condition code check pass, load").with_category("ARM hardware event"));
    v.push(PmuEvent::new("st_retired", "Instruction architecturally executed, condition code check pass, store").with_category("ARM hardware event"));
    v.push(PmuEvent::new("inst_retired", "Instruction architecturally executed").with_category("ARM hardware event"));
    v.push(PmuEvent::new("exc_taken", "Exception taken").with_category("ARM hardware event"));
    v.push(PmuEvent::new("exc_return", "Exception return").with_category("ARM hardware event"));
    v.push(PmuEvent::new("cid_write_retired", "Instruction architecturally executed, condition code check pass, write to CONTEXTIDR").with_category("ARM hardware event"));
    v.push(PmuEvent::new("pc_write_retired", "Instruction architecturally executed, software change of the PC").with_category("ARM hardware event"));
    v.push(PmuEvent::new("br_immed_retired", "Instruction architecturally executed, immediate branch").with_category("ARM hardware event"));
    v.push(PmuEvent::new("br_return_retired", "Instruction architecturally executed, condition code check pass, return branch").with_category("ARM hardware event"));
    v.push(PmuEvent::new("unaligned_ldst_retired", "Instruction architecturally executed, unaligned load or store").with_category("ARM hardware event"));
    v.push(PmuEvent::new("br_mis_pred", "Mispredicted or not predicted branch speculatively executed").with_category("ARM hardware event"));
    v.push(PmuEvent::new("cpu_cycles", "Cycle").with_category("ARM hardware event"));
    v.push(PmuEvent::new("br_pred", "Predictable branch speculatively executed").with_category("ARM hardware event"));
    v.push(PmuEvent::new("mem_access", "Data memory access").with_category("ARM hardware event"));
    v.push(PmuEvent::new("l1i_cache_refill", "Level 1 instruction cache refill").with_category("ARM hardware event"));
    v.push(PmuEvent::new("l1d_cache_wb", "Level 1 data cache write-back").with_category("ARM hardware event"));
    v.push(PmuEvent::new("l2d_cache_refill", "Level 2 data cache refill").with_category("ARM hardware event"));
    v.push(PmuEvent::new("l2d_cache", "Level 2 data cache access").with_category("ARM hardware event"));
    v.push(PmuEvent::new("l2d_cache_wb", "Level 2 data cache write-back").with_category("ARM hardware event"));
    v.push(PmuEvent::new("bus_access", "Bus access").with_category("ARM hardware event"));
    v.push(PmuEvent::new("memory_error", "Local memory error").with_category("ARM hardware event"));
    v.push(PmuEvent::new("inst_spec", "Instruction speculatively executed").with_category("ARM hardware event"));
    v.push(PmuEvent::new("ttbr_write_retired", "Instruction architecturally executed, condition code check pass, write to TTBR").with_category("ARM hardware event"));
    v.push(PmuEvent::new("bus_cycles", "Bus cycle").with_category("ARM hardware event"));
    v.push(PmuEvent::new("l1d_cache_allocate", "Level 1 data cache allocation without refill").with_category("ARM hardware event"));
    v.push(PmuEvent::new("l2d_cache_allocate", "Level 2 data cache allocation without refill").with_category("ARM hardware event"));
    v.push(PmuEvent::new("br_retired", "Instruction architecturally executed, branch").with_category("ARM hardware event"));
    v.push(PmuEvent::new("br_mis_pred_retired", "Instruction architecturally executed, mispredicted branch").with_category("ARM hardware event"));
    v.push(PmuEvent::new("stall_frontend", "No operation issued because of the frontend").with_category("ARM hardware event"));
    v.push(PmuEvent::new("stall_backend", "No operation issued because of the backend").with_category("ARM hardware event"));
    v.push(PmuEvent::new("l2d_tlb_refill", "Level 2 data TLB refill").with_category("ARM hardware event"));
    v.push(PmuEvent::new("l1i_tlb_refill", "Level 1 instruction TLB refill").with_category("ARM hardware event"));
    v.push(PmuEvent::new("l1d_tlb_refill", "Level 1 data TLB refill").with_category("ARM hardware event"));
    v.push(PmuEvent::new("l1i_tlb", "Level 1 instruction TLB access").with_category("ARM hardware event"));
    v.push(PmuEvent::new("l1d_tlb", "Level 1 data TLB access").with_category("ARM hardware event"));
    v.push(PmuEvent::new("l3d_cache_refill", "Level 3 data cache refill").with_category("ARM hardware event"));
    v.push(PmuEvent::new("l3d_cache", "Level 3 data cache access").with_category("ARM hardware event"));
    v.push(PmuEvent::new("l3d_cache_wb", "Level 3 data cache write-back").with_category("ARM hardware event"));
    v.push(PmuEvent::new("l2d_tlb", "Level 2 data TLB access").with_category("ARM hardware event"));
    assert(events_view(v@) =~= cortex_events_spec());
    v
}

pub open spec fn neoverse_events_spec() -> Seq<PmuEventView> {
    seq![
        table_event("ld_spec"@, seq![], "Instruction speculatively executed, load"@, "ARM Neoverse event"@),
        table_event("st_spec"@, seq![], "Instruction speculatively executed, store"@, "ARM Neoverse event"@),
        table_event("dp_spec"@, seq![], "Instruction speculatively executed, integer data processing"@, "ARM Neoverse event"@),
        table_event("ase_spec"@, seq![], "Instruction speculatively executed, advanced SIMD"@, "ARM Neoverse event"@),
        table_event("vfp_spec"@, seq![], "Instruction speculatively executed, floating-point"@, "ARM Neoverse event"@),
        table_event("pc_write_spec"@, seq![], "Instruction speculatively executed, software change of PC"@, "ARM Neoverse event"@),
        table_event("crypto_spec"@, seq![], "Instruction speculatively executed, cryptographic"@, "ARM Neoverse event"@),
        table_event("br_imm_spec"@, seq![], "Instruction speculatively executed, immediate branch"@, "ARM Neoverse event"@),
        table_event("br_return_spec"@, seq![], "Instruction speculatively executed, return branch"@, "ARM Neoverse event"@),
        table_event("br_indirect_spec"@, seq![], "Instruction speculatively executed, indirect branch"@, "ARM Neoverse event"@),
        table_event("simd_advsimd_spec"@, seq![], "Instruction speculatively executed, SIMD/Advanced SIMD"@, "ARM Neoverse event"@),
        table_event("simd_sve_spec"@, seq![], "Instruction speculatively executed, SVE"@, "ARM Neoverse event"@),
    ]
}

/// Events of the Neoverse server cores.
pub fn get_neoverse_events() -> (r: Vec<PmuEvent>)
    ensures
        events_view(r@) == neoverse_events_spec(),
{
    let mut v: Vec<PmuEvent> = Vec::new();
    v.push(PmuEvent::new("ld_spec", "Instruction speculatively executed, load").with_category("ARM Neoverse event"));
    v.push(PmuEvent::new("st_spec", "Instruction speculatively executed, store").with_category("ARM Neoverse event"));
    v.push(PmuEvent::new("dp_spec", "Instruction speculatively executed, integer data processing").with_category("ARM Neoverse event"));
    v.push(PmuEvent::new("ase_spec", "Instruction speculatively executed, advanced SIMD").with_category("ARM Neoverse event"));
    v.push(PmuEvent::new("vfp_spec", "Instruction speculatively executed, floating-point").with_category("ARM Neoverse event"));
    v.push(PmuEvent::new("pc_write_spec", "Instruction speculatively executed, software change of PC").with_category("ARM Neoverse event"));
    v.push(PmuEvent::new("crypto_spec", "Instruction speculatively executed, cryptographic").with_category("ARM Neoverse event"));
    v.push(PmuEvent::new("br_imm_spec", "Instruction speculatively executed, immediate branch").with_category("ARM Neoverse event"));
    v.push(PmuEvent::new("br_return_spec", "Instruction speculatively executed, return branch").with_category("ARM Neoverse event"));
    v.push(PmuEvent::new("br_indirect_spec", "Instruction speculatively executed, indirect branch").with_category("ARM Neoverse event"));
    v.push(PmuEvent::new("simd_advsimd_spec", "Instruction speculatively executed, SIMD/Advanced SIMD").with_category("ARM Neoverse event"));
    v.push(PmuEvent::new("simd_sve_spec", "Instruction speculatively executed, SVE").with_category("ARM Neoverse event"));
    assert(events_view(v@) =~= neoverse_events_spec());
    v
}

/// The built-in ARM64 events: generic, Cortex, then Neoverse.
pub open spec fn arm64_table_spec() -> Seq<PmuEventView> {
    generic_events_spec() + cortex_events_spec() + neoverse_events_spec()
}

/// The ARM64 events, merged by name with those that sysfs lists.
pub fn get_events(sysfs_events: Vec<PmuEvent>) -> (r: Vec<PmuEvent>)
    ensures
        events_view(r@) == merge_by_name(arm64_table_spec(), events_view(sysfs_events@)),
{
    let mut events = get_generic_events();
    append_events(&mut events, get_cortex_events());
    append_events(&mut events, get_neoverse_events());
    merge_events(&mut events, sysfs_events);
    events
}

} // verus!
