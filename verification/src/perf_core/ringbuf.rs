//! Sampling buffers: the plan a sampling counter is built with, and the
//! buffer that hands out its records.

use vstd::prelude::*;
use crate::error::PerfError;
use crate::events::PerfEvent;
use crate::perf_core::perf_event::{
    built_event, builder_any_cpu, builder_build, builder_enable_on_exec, builder_exclude_kernel,
    builder_inherit, builder_observe_pid, builder_one_cpu, builder_sample, builder_sample_max_stack,
    builder_sample_period, builder_sample_regs_user, builder_sample_stack_user, fresh_settings, new_builder,
    BuilderSettings, BuiltEvent, EventBuilder, PerfCounter, PidTarget,
};
use crate::text::{chars_to_string, dec_chars, fmt_dec, push_all, push_str, string_of};

verus! {

#[verifier::external_type_specification]
#[verifier::external_body]
pub struct ExSampler(perf_event::Sampler);

#[verifier::external_type_specification]
#[verifier::external_body]
pub struct ExRecord<'a>(perf_event::Record<'a>);

/// How the sampling buffer is mapped.
#[derive(Debug, Clone, Copy, PartialEq, Eq, Structural)]
pub struct RingBufferConfig {
    /// Number of data pages of the buffer.
    pub map_len: usize,
    pub track_lost: bool,
}

impl Default for RingBufferConfig {
    fn default() -> (c: Self)
        ensures
            c == (RingBufferConfig { map_len: 16, track_lost: true }),
    {
        RingBufferConfig { map_len: 16, track_lost: true }
    }
}

/// What a buffer has handed out and lost.
#[derive(Debug, Clone, Copy, PartialEq, Eq, Structural)]
pub struct RingBufferStats {
    pub lost_samples: u64,
    pub records_read: u64,
}

impl Default for RingBufferStats {
    fn default() -> (s: Self)
        ensures
            s == (RingBufferStats { lost_samples: 0, records_read: 0 }),
    {
        RingBufferStats { lost_samples: 0, records_read: 0 }
    }
}

/// Bits of the sample type that the sampling counters use.
pub const SAMPLE_IP: u64 = 0x1;
pub const SAMPLE_TID: u64 = 0x2;
pub const SAMPLE_TIME: u64 = 0x4;
pub const SAMPLE_CALLCHAIN: u64 = 0x20;
pub const SAMPLE_CPU: u64 = 0x80;
pub const SAMPLE_REGS_USER: u64 = 0x1000;
pub const SAMPLE_STACK_USER: u64 = 0x2000;

/// What a sampling counter is built with. `None` leaves the crate's
/// default.
#[derive(Debug, Clone, Copy, PartialEq, Eq, Structural)]
pub struct SamplerPlan {
    /// The process observed; -1 for every process.
    pub pid: i32,
    pub cpu: Option<usize>,
    pub sample_period: u64,
    pub inherit: Option<bool>,
    pub enable_on_exec: Option<bool>,
    pub exclude_kernel: Option<bool>,
    /// The union of the sample flags.
    pub sample_type: u64,
    pub max_stack: Option<u16>,
    pub regs_user: Option<u64>,
    pub stack_user: Option<u32>,
}

/// Call chains when asked (with the stack depth when it is not zero), and
/// user registers and stack when both are given.
pub open spec fn unwind_flags(base: u64, callchain: bool, regs_user: Option<u64>, stack_user: Option<u32>) -> u64 {
    let with_chain = if callchain {
        base | SAMPLE_CALLCHAIN
    } else {
        base
    };
    if regs_user is Some && stack_user is Some {
        with_chain | SAMPLE_REGS_USER | SAMPLE_STACK_USER
    } else {
        with_chain
    }
}

pub open spec fn max_stack_setting(callchain: bool, max_stack: u16) -> Option<u16> {
    if callchain && max_stack > 0 {
        Some(max_stack)
    } else {
        None
    }
}

pub open spec fn both_or_none(regs_user: Option<u64>, stack_user: Option<u32>) -> (Option<u64>, Option<u32>) {
    match (regs_user, stack_user) {
        (Some(r), Some(s)) => (Some(r), Some(s)),
        _ => (None, None),
    }
}

/// The plan for sampling a process: with a CPU, the process only on that
/// CPU, the kernel included, with CPU numbers in the samples; without, the
/// process on any CPU.
pub open spec fn pid_plan_spec(
    pid: i32,
    sample_period: u64,
    inherit: bool,
    callchain: bool,
    max_stack: u16,
    cpu: Option<u32>,
    regs_user: Option<u64>,
    stack_user: Option<u32>,
) -> SamplerPlan {
    let base = match cpu {
        Some(_) => SAMPLE_IP | SAMPLE_TID | SAMPLE_TIME | SAMPLE_CPU,
        None => SAMPLE_IP | SAMPLE_TID | SAMPLE_TIME,
    };
    SamplerPlan {
        pid,
        cpu: match cpu {
            Some(c) => Some(c as usize),
            None => None,
        },
        sample_period,
        inherit: Some(inherit),
        enable_on_exec: None,
        exclude_kernel: match cpu {
            Some(_) => Some(false),
            None => None,
        },
        sample_type: unwind_flags(base, callchain, regs_user, stack_user),
        max_stack: max_stack_setting(callchain, max_stack),
        regs_user: both_or_none(regs_user, stack_user).0,
        stack_user: both_or_none(regs_user, stack_user).1,
    }
}

fn unwind_settings(
    base: u64,
    callchain: bool,
    max_stack: u16,
    regs_user: Option<u64>,
    stack_user: Option<u32>,
) -> (r: (u64, Option<u16>, Option<u64>, Option<u32>))
    ensures
        r == (
            unwind_flags(base, callchain, regs_user, stack_user),
            max_stack_setting(callchain, max_stack),
            both_or_none(regs_user, stack_user).0,
            both_or_none(regs_user, stack_user).1,
        ),
{
    let mut flags = base;
    let mut ms: Option<u16> = None;
    if callchain {
        flags = flags | SAMPLE_CALLCHAIN;
        if max_stack > 0 {
            ms = Some(max_stack);
        }
    }
    match (regs_user, stack_user) {
        (Some(r), Some(s)) => (flags | SAMPLE_REGS_USER | SAMPLE_STACK_USER, ms, Some(r), Some(s)),
        _ => (flags, ms, None, None),
    }
}

pub fn pid_plan(
    pid: i32,
    sample_period: u64,
    inherit: bool,
    callchain: bool,
    max_stack: u16,
    cpu: Option<u32>,
    regs_user: Option<u64>,
    stack_user: Option<u32>,
) -> (p: SamplerPlan)
    ensures
        p == pid_plan_spec(pid, sample_period, inherit, callchain, max_stack, cpu, regs_user, stack_user),
{
    let (where_, base, exclude_kernel) = match cpu {
        Some(c) => (Some(c as usize), SAMPLE_IP | SAMPLE_TID | SAMPLE_TIME | SAMPLE_CPU, Some(false)),
        None => (None, SAMPLE_IP | SAMPLE_TID | SAMPLE_TIME, None),
    };
    let (flags, ms, regs, stack) = unwind_settings(base, callchain, max_stack, regs_user, stack_user);
    SamplerPlan {
        pid,
        cpu: where_,
        sample_period,
        inherit: Some(inherit),
        enable_on_exec: None,
        exclude_kernel,
        sample_type: flags,
        max_stack: ms,
        regs_user: regs,
        stack_user: stack,
    }
}

/// The plan for sampling every process on one CPU, the kernel included.
pub open spec fn cpu_plan_spec(
    cpu: u32,
    sample_period: u64,
    enable_on_exec: bool,
    callchain: bool,
    max_stack: u16,
    regs_user: Option<u64>,
    stack_user: Option<u32>,
) -> SamplerPlan {
    SamplerPlan {
        pid: -1i32,
        cpu: Some(cpu as usize),
        sample_period,
        inherit: None,
        enable_on_exec: Some(enable_on_exec),
        exclude_kernel: Some(false),
        sample_type: unwind_flags(
            SAMPLE_IP | SAMPLE_TID | SAMPLE_TIME | SAMPLE_CPU,
            callchain,
            regs_user,
            stack_user,
        ),
        max_stack: max_stack_setting(callchain, max_stack),
        regs_user: both_or_none(regs_user, stack_user).0,
        stack_user: both_or_none(regs_user, stack_user).1,
    }
}

pub fn cpu_plan(
    cpu: u32,
    sample_period: u64,
    enable_on_exec: bool,
    callchain: bool,
    max_stack: u16,
    regs_user: Option<u64>,
    stack_user: Option<u32>,
) -> (p: SamplerPlan)
    ensures
        p == cpu_plan_spec(cpu, sample_period, enable_on_exec, callchain, max_stack, regs_user, stack_user),
{
    let (flags, ms, regs, stack) = unwind_settings(
        SAMPLE_IP | SAMPLE_TID | SAMPLE_TIME | SAMPLE_CPU,
        callchain,
        max_stack,
        regs_user,
        stack_user,
    );
    SamplerPlan {
        pid: -1,
        cpu: Some(cpu as usize),
        sample_period,
        inherit: None,
        enable_on_exec: Some(enable_on_exec),
        exclude_kernel: Some(false),
        sample_type: flags,
        max_stack: ms,
        regs_user: regs,
        stack_user: stack,
    }
}

/// `Counter::sampled`: maps the sampling buffer of `map_len` pages; on
/// failure, the message of the I/O error. Nothing is stated of either
/// outcome.
#[verifier::external_body]
fn counter_sampled(c: perf_event::Counter, map_len: usize) -> Result<perf_event::Sampler, String> {
    match c.sampled(map_len) {
        Ok(s) => Ok(s),
        Err(e) => Err(e.to_string()),
    }
}

/// `Sampler::enable` (through its counter). Nothing is stated of the
/// outcome.
#[verifier::external_body]
fn sampler_enable(s: &mut perf_event::Sampler) -> Result<(), String> {
    match s.enable() {
        Ok(()) => Ok(()),
        Err(e) => Err(e.to_string()),
    }
}

/// `Sampler::disable` (through its counter). Nothing is stated of the
/// outcome.
#[verifier::external_body]
fn sampler_disable(s: &mut perf_event::Sampler) -> Result<(), String> {
    match s.disable() {
        Ok(()) => Ok(()),
        Err(e) => Err(e.to_string()),
    }
}

/// `Sampler::next_record`: the next record in the buffer, if one is
/// there. Nothing is stated of it.
#[verifier::external_body]
fn sampler_next_record<'a>(s: &'a mut perf_event::Sampler) -> Option<perf_event::Record<'a>> {
    s.next_record()
}

/// What a sampling counter of an event is built with under a plan.
pub open spec fn sampler_settings(event: BuiltEvent, plan: SamplerPlan) -> BuilderSettings {
    BuilderSettings {
        who: Some(PidTarget::Process(plan.pid)),
        cpu: Some(plan.cpu),
        sample_period: Some(plan.sample_period),
        inherit: plan.inherit,
        enable_on_exec: plan.enable_on_exec,
        exclude_kernel: plan.exclude_kernel,
        sample_type: plan.sample_type,
        max_stack: plan.max_stack,
        regs_user: plan.regs_user,
        stack_user: plan.stack_user,
        ..fresh_settings(event)
    }
}

/// Hands a sampling plan to a fresh builder.
fn apply_sampler_plan(b: &mut EventBuilder, plan: &SamplerPlan)
    requires
        old(b).settings() == fresh_settings(old(b).settings().event),
    ensures
        final(b).settings() == sampler_settings(old(b).settings().event, *plan),
{
    builder_observe_pid(b, plan.pid);
    match plan.cpu {
        Some(c) => builder_one_cpu(b, c),
        None => builder_any_cpu(b),
    }
    builder_sample_period(b, plan.sample_period);
    match plan.inherit {
        Some(i) => builder_inherit(b, i),
        None => {},
    }
    match plan.enable_on_exec {
        Some(e) => builder_enable_on_exec(b, e),
        None => {},
    }
    match plan.exclude_kernel {
        Some(x) => builder_exclude_kernel(b, x),
        None => {},
    }
    let bits = plan.sample_type;
    assert(0u64 | bits == bits) by (bit_vector);
    builder_sample(b, bits);
    match plan.max_stack {
        Some(m) => builder_sample_max_stack(b, m),
        None => {},
    }
    match plan.regs_user {
        Some(r) => builder_sample_regs_user(b, r),
        None => {},
    }
    match plan.stack_user {
        Some(s) => builder_sample_stack_user(b, s),
        None => {},
    }
}

/// The message when the buffer cannot be mapped.
pub open spec fn sampler_setup_message(map_len: usize) -> Seq<char> {
    "Failed to create sampler with map_len="@ + fmt_dec(map_len as nat)
}

/// A sampling counter and what it has handed out.
pub struct RingBuffer {
    sampler: perf_event::Sampler,
    records_read: u64,
    settings: Ghost<BuilderSettings>,
    plan: Ghost<Option<SamplerPlan>>,
}

impl RingBuffer {
    /// What the buffer has handed out; no operation counts a lost sample.
    pub closed spec fn stats_view(&self) -> RingBufferStats {
        RingBufferStats { lost_samples: 0, records_read: self.records_read }
    }

    /// The plan the counter was built with; `None` for a buffer made from
    /// a counter that was built elsewhere.
    pub closed spec fn plan(&self) -> Option<SamplerPlan> {
        self.plan@
    }

    /// What the counter behind the buffer was built with.
    pub closed spec fn settings(&self) -> BuilderSettings {
        self.settings@
    }

    /// Maps the sampling buffer of a counter; a failure is a
    /// `RingBufferSetup` error that names the length.
    pub fn new(counter: PerfCounter, config: RingBufferConfig) -> (r: Result<RingBuffer, PerfError>)
        ensures
            match r {
                Ok(rb) => rb.stats_view() == (RingBufferStats { lost_samples: 0, records_read: 0 })
                    && rb.plan() is None && rb.settings() == counter.settings(),
                Err(e) => e matches PerfError::RingBufferSetup { message, .. } && message@
                    == sampler_setup_message(config.map_len),
            },
    {
        let settings = counter.settings_ghost();
        match counter_sampled(counter.into_counter(), config.map_len) {
            Ok(sampler) => Ok(RingBuffer { sampler, records_read: 0, settings, plan: Ghost(None) }),
            Err(m) => {
                let mut v: Vec<char> = Vec::new();
                push_str(&mut v, "Failed to create sampler with map_len=");
                let d = dec_chars(config.map_len as u64);
                push_all(&mut v, d.as_slice());
                Err(PerfError::RingBufferSetup { message: chars_to_string(v.as_slice()), source: m })
            },
        }
    }

    /// Builds a sampling counter of an event with a plan and maps its
    /// buffer: the counter is built with exactly the event's numbers and
    /// that plan.
    fn from_plan(event: &PerfEvent, plan: &SamplerPlan) -> (r: Result<RingBuffer, PerfError>)
        ensures
            match r {
                Ok(rb) => rb.stats_view() == (RingBufferStats { lost_samples: 0, records_read: 0 })
                    && rb.plan() == Some(*plan) && rb.settings() == sampler_settings(built_event(event@), *plan),
                Err(e) => e is CounterSetup || (e matches PerfError::RingBufferSetup { message, .. }
                    && message@ == sampler_setup_message(16)),
            },
    {
        let mut b = new_builder(event);
        apply_sampler_plan(&mut b, plan);
        let counter = match builder_build(&b) {
            Ok(c) => c,
            Err(m) => {
                return Err(PerfError::CounterSetup { source: m });
            },
        };
        match RingBuffer::new(counter, RingBufferConfig::default()) {
            Ok(rb) => Ok(RingBuffer { sampler: rb.sampler, records_read: rb.records_read, settings: rb.settings, plan: Ghost(Some(*plan)) }),
            Err(e) => Err(e),
        }
    }

    /// A sampling buffer for a process (with a CPU, only on that CPU),
    /// built with `pid_plan` and the default buffer length.
    pub fn from_event_for_pid(
        event: &PerfEvent,
        pid: i32,
        sample_period: u64,
        inherit: bool,
        callchain: bool,
        max_stack: u16,
        cpu: Option<u32>,
        regs_user: Option<u64>,
        stack_user: Option<u32>,
    ) -> (r: Result<RingBuffer, PerfError>)
        ensures
            match r {
                Ok(rb) => rb.stats_view() == (RingBufferStats { lost_samples: 0, records_read: 0 })
                    && rb.plan() == Some(
                    pid_plan_spec(pid, sample_period, inherit, callchain, max_stack, cpu, regs_user, stack_user),
                ) && rb.settings() == sampler_settings(
                    built_event(event@),
                    pid_plan_spec(pid, sample_period, inherit, callchain, max_stack, cpu, regs_user, stack_user),
                ),
                Err(e) => e is CounterSetup || (e matches PerfError::RingBufferSetup { message, .. }
                    && message@ == sampler_setup_message(16)),
            },
    {
        let plan = pid_plan(pid, sample_period, inherit, callchain, max_stack, cpu, regs_user, stack_user);
        RingBuffer::from_plan(event, &plan)
    }

    /// A sampling buffer for every process on one CPU, built with
    /// `cpu_plan` and the default buffer length.
    pub fn from_event_for_cpu(
        event: &PerfEvent,
        cpu: u32,
        sample_period: u64,
        enable_on_exec: bool,
        callchain: bool,
        max_stack: u16,
        regs_user: Option<u64>,
        stack_user: Option<u32>,
    ) -> (r: Result<RingBuffer, PerfError>)
        ensures
            match r {
                Ok(rb) => rb.stats_view() == (RingBufferStats { lost_samples: 0, records_read: 0 })
                    && rb.plan() == Some(
                    cpu_plan_spec(cpu, sample_period, enable_on_exec, callchain, max_stack, regs_user, stack_user),
                ) && rb.settings() == sampler_settings(
                    built_event(event@),
                    cpu_plan_spec(cpu, sample_period, enable_on_exec, callchain, max_stack, regs_user, stack_user),
                ),
                Err(e) => e is CounterSetup || (e matches PerfError::RingBufferSetup { message, .. }
                    && message@ == sampler_setup_message(16)),
            },
    {
        let plan = cpu_plan(cpu, sample_period, enable_on_exec, callchain, max_stack, regs_user, stack_user);
        RingBuffer::from_plan(event, &plan)
    }

    /// Starts sampling; a failure is a `CounterEnable` error for `sampler`.
    pub fn enable(&mut self) -> (r: Result<(), PerfError>)
        ensures
            final(self).stats_view() == old(self).stats_view(),
            final(self).plan() == old(self).plan(),
            final(self).settings() == old(self).settings(),
            r matches Err(e) ==> (e matches PerfError::CounterEnable { event_name, .. } && event_name@
                == "sampler"@),
    {
        match sampler_enable(&mut self.sampler) {
            Ok(()) => Ok(()),
            Err(m) => Err(PerfError::CounterEnable { event_name: string_of("sampler"), source: m }),
        }
    }

    /// Stops sampling; a failure is a `CounterDisable` error for `sampler`.
    pub fn disable(&mut self) -> (r: Result<(), PerfError>)
        ensures
            final(self).stats_view() == old(self).stats_view(),
            final(self).plan() == old(self).plan(),
            final(self).settings() == old(self).settings(),
            r matches Err(e) ==> (e matches PerfError::CounterDisable { event_name, .. } && event_name@
                == "sampler"@),
    {
        match sampler_disable(&mut self.sampler) {
            Ok(()) => Ok(()),
            Err(m) => Err(PerfError::CounterDisable { event_name: string_of("sampler"), source: m }),
        }
    }

    /// The next record, if any; each record handed out is counted (the
    /// count wraps at 2^64).
    pub fn next_record(&mut self) -> (r: Option<perf_event::Record<'_>>)
        ensures
            final(self).stats_view().lost_samples == old(self).stats_view().lost_samples,
            final(self).plan() == old(self).plan(),
            final(self).settings() == old(self).settings(),
            final(self).stats_view().records_read == (if r is Some {
                crate::commands::report::add_wrapping(old(self).stats_view().records_read, 1)
            } else {
                old(self).stats_view().records_read
            }),
    {
        let record = sampler_next_record(&mut self.sampler);
        if record.is_some() {
            self.records_read = self.records_read.wrapping_add(1);
        }
        record
    }

    /// Samples reported lost: none, in every state a buffer can reach
    /// (nothing counts a loss).
    pub fn lost_count(&self) -> (r: u64)
        ensures
            r == self.stats_view().lost_samples,
            r == 0,
    {
        0
    }
}


/// No buffer counts a lost sample: in every state a buffer can reach,
/// through its constructors, `enable`, `disable` and `next_record`, the
/// lost-sample count is 0.
pub proof fn lemma_nothing_lost(rb: RingBuffer)
    ensures
        rb.stats_view().lost_samples == 0,
{
}

} // verus!
