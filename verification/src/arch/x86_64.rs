//! Events and register masks of x86_64 (Intel and AMD).

use vstd::prelude::*;
use super::{
    append_events, events_view, generic_events_spec, get_generic_events, merge_by_name,
    merge_events, table_event, PmuEvent, PmuEventView,
};

verus! {

/// Register numbers in the kernel's sample layout (`perf_regs.h`).
pub const REG_AX: u32 = 0;
pub const REG_BX: u32 = 1;
pub const REG_CX: u32 = 2;
pub const REG_DX: u32 = 3;
pub const REG_SI: u32 = 4;
pub const REG_DI: u32 = 5;
pub const REG_BP: u32 = 6;
pub const REG_SP: u32 = 7;
pub const REG_IP: u32 = 8;
pub const REG_FLAGS: u32 = 9;
pub const REG_CS: u32 = 10;
pub const REG_SS: u32 = 11;
pub const REG_DS: u32 = 12;
pub const REG_ES: u32 = 13;
pub const REG_FS: u32 = 14;
pub const REG_GS: u32 = 15;
pub const REG_R8: u32 = 16;
pub const REG_R9: u32 = 17;
pub const REG_R10: u32 = 18;
pub const REG_R11: u32 = 19;
pub const REG_R12: u32 = 20;
pub const REG_R13: u32 = 21;
pub const REG_R14: u32 = 22;
pub const REG_R15: u32 = 23;
/// How many general-purpose registers there are.
pub const REG_MAX: u32 = 24;

/// Registers that unwinding needs: IP, SP, BP and the callee-saved BX and
/// R12 to R15.
pub const X86_64_REGS_DWARF: u64 = 0xf0_01c2;

/// Registers that a callee preserves (System V ABI): BX, BP, R12 to R15.
pub const X86_64_CALLEE_SAVED: u64 = 0xf0_0042;

/// The register mask for unwinding samples.
pub fn x86_64_reg_mask() -> (r: u64)
    ensures
        r == X86_64_REGS_DWARF,
{
    X86_64_REGS_DWARF
}

/// The mask has a bit set exactly for IP, SP, BP, BX and R12 to R15; the
/// callee-saved registers are among them.
pub proof fn lemma_reg_masks()
    ensures
        X86_64_REGS_DWARF == (1u64 << 8u64) | (1u64 << 7u64) | (1u64 << 6u64) | (1u64 << 1u64) | (1u64 << 20u64)
            | (1u64 << 21u64) | (1u64 << 22u64) | (1u64 << 23u64),
        X86_64_CALLEE_SAVED == (1u64 << 1u64) | (1u64 << 6u64) | (1u64 << 20u64) | (1u64 << 21u64) | (1u64
            << 22u64) | (1u64 << 23u64),
        X86_64_CALLEE_SAVED & X86_64_REGS_DWARF == X86_64_CALLEE_SAVED,
{
    assert((1u64 << 8u64) | (1u64 << 7u64) | (1u64 << 6u64) | (1u64 << 1u64) | (1u64 << 20u64) | (1u64
        << 21u64) | (1u64 << 22u64) | (1u64 << 23u64) == 0xf0_01c2u64) by (bit_vector);
    assert((1u64 << 1u64) | (1u64 << 6u64) | (1u64 << 20u64) | (1u64 << 21u64) | (1u64 << 22u64) | (1u64
        << 23u64) == 0xf0_0042u64) by (bit_vector);
    assert(0xf0_0042u64 & 0xf0_01c2u64 == 0xf0_0042u64) by (bit_vector);
}

pub open spec fn intel_events_spec() -> Seq<PmuEventView> {
    seq![
        table_event("inst_retired.any"@, seq![], "Number of instructions retired (Precise Event)"@, "Intel hardware event"@),
        table_event("cpu_clk_unhalted.thread"@, seq![], "Core cycles when the thread is not in a halt state"@, "Intel hardware event"@),
        table_event("cpu_clk_unhalted.thread_any"@, seq![], "Core cycles when at least one thread is not in a halt state"@, "Intel hardware event"@),
        table_event("br_inst_retired.all_branches"@, seq![], "Retired branch instructions (Precise Event)"@, "Intel hardware event"@),
        table_event("br_misp_retired.all_branches"@, seq![], "Retired mispredicted branch instructions (Precise Event)"@, "Intel hardware event"@),
        table_event("mem_inst_retired.any"@, seq![], "Instructions retired with memory access (Precise Event)"@, "Intel hardware event"@),
        table_event("mem_retired.split_loads"@, seq![], "Retired load instructions that split across cache lines"@, "Intel hardware event"@),
        table_event("ld_blocks.data_unknown"@, seq![], "Blocked loads due to unknown data address"@, "Intel hardware event"@),
        table_event("cycles_div_busy.ratio"@, seq![], "Cycles with any divider busy"@, "Intel hardware event"@),
        table_event("fp_arith_inst_retired.scalar_double"@, seq![], "Retired scalar double-precision floating-point instructions"@, "Intel hardware event"@),
        table_event("fp_arith_inst_retired.scalar_single"@, seq![], "Retired scalar single-precision floating-point instructions"@, "Intel hardware event"@),
        table_event("fp_arith_inst_retired.128b_packed_double"@, seq![], "Retired 128-bit packed double-precision floating-point instructions"@, "Intel hardware event"@),
        table_event("fp_arith_inst_retired.128b_packed_single"@, seq![], "Retired 128-bit packed single-precision floating-point instructions"@, "Intel hardware event"@),
        table_event("fp_arith_inst_retired.256b_packed_double"@, seq![], "Retired 256-bit packed double-precision floating-point instructions"@, "Intel hardware event"@),
        table_event("fp_arith_inst_retired.256b_packed_single"@, seq![], "Retired 256-bit packed single-precision floating-point instructions"@, "Intel hardware event"@),
        table_event("uops_issued.any"@, seq![], "Micro-ops issued to the reservation station"@, "Intel hardware event"@),
        table_event("uops_retired.all"@, seq![], "Retired micro-ops"@, "Intel hardware event"@),
        table_event("uops_retired.retire_slots"@, seq![], "Retirement slots used"@, "Intel hardware event"@),
        table_event("l1d.retired.miss"@, seq![], "Retired L1D cache misses"@, "Intel hardware event"@),
        table_event("itlb_misses.walk_completed"@, seq![], "Completed ITLB page walks"@, "Intel hardware event"@),
        table_event("dtlb_load_misses.walk_completed"@, seq![], "Completed DTLB page walks for loads"@, "Intel hardware event"@),
        table_event("dtlb_store_misses.walk_completed"@, seq![], "Completed DTLB page walks for stores"@, "Intel hardware event"@),
    ]
}

/// Intel events.
pub fn get_intel_events() -> (r: Vec<PmuEvent>)
    ensures
        events_view(r@) == intel_events_spec(),
{
    let mut v: Vec<PmuEvent> = Vec::new();
    v.push(PmuEvent::new("inst_retired.any", "Number of instructions retired (Precise Event)").with_category("Intel hardware event"));
    v.push(PmuEvent::new("cpu_clk_unhalted.thread", "Core cycles when the thread is not in a halt state").with_category("Intel hardware event"));
    v.push(PmuEvent::new("cpu_clk_unhalted.thread_any", "Core cycles when at least one thread is not in a halt state").with_category("Intel hardware event"));
    v.push(PmuEvent::new("br_inst_retired.all_branches", "Retired branch instructions (Precise Event)").with_category("Intel hardware event"));
    v.push(PmuEvent::new("br_misp_retired.all_branches", "Retired mispredicted branch instructions (Precise Event)").with_category("Intel hardware event"));
    v.push(PmuEvent::new("mem_inst_retired.any", "Instructions retired with memory access (Precise Event)").with_category("Intel hardware event"));
    v.push(PmuEvent::new("mem_retired.split_loads", "Retired load instructions that split across cache lines").with_category("Intel hardware event"));
    v.push(PmuEvent::new("ld_blocks.data_unknown", "Blocked loads due to unknown data address").with_category("Intel hardware event"));
    v.push(PmuEvent::new("cycles_div_busy.ratio", "Cycles with any divider busy").with_category("Intel hardware event"));
    v.push(PmuEvent::new("fp_arith_inst_retired.scalar_double", "Retired scalar double-precision floating-point instructions").with_category("Intel hardware event"));
    v.push(PmuEvent::new("fp_arith_inst_retired.scalar_single", "Retired scalar single-precision floating-point instructions").with_category("Intel hardware event"));
    v.push(PmuEvent::new("fp_arith_inst_retired.128b_packed_double", "Retired 128-bit packed double-precision floating-point instructions").with_category("Intel hardware event"));
    v.push(PmuEvent::new("fp_arith_inst_retired.128b_packed_single", "Retired 128-bit packed single-precision floating-point instructions").with_category("Intel hardware event"));
    v.push(PmuEvent::new("fp_arith_inst_retired.256b_packed_double", "Retired 256-bit packed double-precision floating-point instructions").with_category("Intel hardware event"));
    v.push(PmuEvent::new("fp_arith_inst_retired.256b_packed_single", "Retired 256-bit packed single-precision floating-point instructions").with_category("Intel hardware event"));
    v.push(PmuEvent::new("uops_issued.any", "Micro-ops issued to the reservation station").with_category("Intel hardware event"));
    v.push(PmuEvent::new("uops_retired.all", "Retired micro-ops").with_category("Intel hardware event"));
    v.push(PmuEvent::new("uops_retired.retire_slots", "Retirement slots used").with_category("Intel hardware event"));
    v.push(PmuEvent::new("l1d.retired.miss", "Retired L1D cache misses").with_category("Intel hardware event"));
    v.push(PmuEvent::new("itlb_misses.walk_completed", "Completed ITLB page walks").with_category("Intel hardware event"));
    v.push(PmuEvent::new("dtlb_load_misses.walk_completed", "Completed DTLB page walks for loads").with_category("Intel hardware event"));
    v.push(PmuEvent::new("dtlb_store_misses.walk_completed", "Completed DTLB page walks for stores").with_category("Intel hardware event"));
    assert(events_view(v@) =~= intel_events_spec());
    v
}

pub open spec fn amd_events_spec() -> Seq<PmuEventView> {
    seq![
        table_event("retired_instr"@, seq![], "Retired instructions"@, "AMD hardware event"@),
        table_event("cycles_not_in_halt"@, seq![], "Cycles not in halt"@, "AMD hardware event"@),
        table_event("retired_br_instr"@, seq![], "Retired branch instructions"@, "AMD hardware event"@),
        table_event("retired_br_misp_instr"@, seq![], "Retired mispredicted branch instructions"@, "AMD hardware event"@),
        table_event("retired_mmx_fp_instr"@, seq![], "Retired MMX/FP instructions"@, "AMD hardware event"@),
        table_event("retired_fpu_instr"@, seq![], "Retired FPU instructions"@, "AMD hardware event"@),
        table_event("dispatch_stall"@, seq![], "Dispatch stalls"@, "AMD hardware event"@),
        table_event("decode_stall"@, seq![], "Decode stalls"@, "AMD hardware event"@),
        table_event("fp_dispatch_stall"@, seq![], "FP dispatch stalls"@, "AMD hardware event"@),
        table_event("ls_dispatch"@, seq![], "Load/store dispatches"@, "AMD hardware event"@),
        table_event("retired_near_ret"@, seq![], "Retired near returns"@, "AMD hardware event"@),
        table_event("retired_near_ret_mispred"@, seq![], "Retired mispredicted near returns"@, "AMD hardware event"@),
        table_event("ic_fetch_stall"@, seq![], "Instruction cache fetch stalls"@, "AMD hardware event"@),
        table_event("ic_cache_miss"@, seq![], "Instruction cache misses"@, "AMD hardware event"@),
        table_event("dc_miss"@, seq![], "Data cache misses"@, "AMD hardware event"@),
        table_event("tlb_miss"@, seq![], "TLB misses"@, "AMD hardware event"@),
        table_event("l2_request_g1"@, seq![], "L2 cache requests"@, "AMD hardware event"@),
        table_event("l2_miss"@, seq![], "L2 cache misses"@, "AMD hardware event"@),
    ]
}

/// AMD events.
pub fn get_amd_events() -> (r: Vec<PmuEvent>)
    ensures
        events_view(r@) == amd_events_spec(),
{
    let mut v: Vec<PmuEvent> = Vec::new();
    v.push(PmuEvent::new("retired_instr", "Retired instructions").with_category("AMD hardware event"));
    v.push(PmuEvent::new("cycles_not_in_halt", "Cycles not in halt").with_category("AMD hardware event"));
    v.push(PmuEvent::new("retired_br_instr", "Retired branch instructions").with_category("AMD hardware event"));
    v.push(PmuEvent::new("retired_br_misp_instr", "Retired mispredicted branch instructions").with_category("AMD hardware event"));
    v.push(PmuEvent::new("retired_mmx_fp_instr", "Retired MMX/FP instructions").with_category("AMD hardware event"));
    v.push(PmuEvent::new("retired_fpu_instr", "Retired FPU instructions").with_category("AMD hardware event"));
    v.push(PmuEvent::new("dispatch_stall", "Dispatch stalls").with_category("AMD hardware event"));
    v.push(PmuEvent::new("decode_stall", "Decode stalls").with_category("AMD hardware event"));
    v.push(PmuEvent::new("fp_dispatch_stall", "FP dispatch stalls").with_category("AMD hardware event"));
    v.push(PmuEvent::new("ls_dispatch", "Load/store dispatches").with_category("AMD hardware event"));
    v.push(PmuEvent::new("retired_near_ret", "Retired near returns").with_category("AMD hardware event"));
    v.push(PmuEvent::new("retired_near_ret_mispred", "Retired mispredicted near returns").with_category("AMD hardware event"));
    v.push(PmuEvent::new("ic_fetch_stall", "Instruction cache fetch stalls").with_category("AMD hardware event"));
    v.push(PmuEvent::new("ic_cache_miss", "Instruction cache misses").with_category("AMD hardware event"));
    v.push(PmuEvent::new("dc_miss", "Data cache misses").with_category("AMD hardware event"));
    v.push(PmuEvent::new("tlb_miss", "TLB misses").with_category("AMD hardware event"));
    v.push(PmuEvent::new("l2_request_g1", "L2 cache requests").with_category("AMD hardware event"));
    v.push(PmuEvent::new("l2_miss", "L2 cache misses").with_category("AMD hardware event"));
    assert(events_view(v@) =~= amd_events_spec());
    v
}

/// The built-in x86_64 events: generic, Intel, then AMD.
pub open spec fn x86_64_table_spec() -> Seq<PmuEventView> {
    generic_events_spec() + intel_events_spec() + amd_events_spec()
}

/// The x86_64 events, merged by name with those that sysfs lists.
pub fn get_events(sysfs_events: Vec<PmuEvent>) -> (r: Vec<PmuEvent>)
    ensures
        events_view(r@) == merge_by_name(x86_64_table_spec(), events_view(sysfs_events@)),
{
    let mut events = get_generic_events();
    append_events(&mut events, get_intel_events());
    append_events(&mut events, get_amd_events());
    merge_events(&mut events, sysfs_events);
    events
}

} // verus!
