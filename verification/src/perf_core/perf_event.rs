//! Counting events with the kernel: the settings of a counter, and the
//! counters themselves, through the `perf-event2` crate.

use vstd::prelude::*;
use crate::error::PerfError;
use crate::events::{
    cache_config, hardware_config, software_config, Cache, CacheId, CacheOp, CacheResult, EventModifiers,
    EventView, PerfEvent, Raw,
};
use crate::text::string_of;

verus! {

#[verifier::external_type_specification]
#[verifier::external_body]
pub struct ExBuilder<'a>(perf_event::Builder<'a>);

#[verifier::external_type_specification]
#[verifier::external_body]
pub struct ExCounter(perf_event::Counter);

/// Settings of a counter: whom and where it observes, and what it
/// excludes.
#[derive(Debug, Clone, Copy, PartialEq, Eq, Structural)]
pub struct PerfConfig {
    pub pid: Option<u32>,
    pub cpu: Option<u32>,
    pub include_kernel: bool,
    pub include_user: bool,
    pub include_hv: bool,
    pub inherit: bool,
    pub enable_on_exec: bool,
}

/// The default settings: the calling process, any CPU, user and
/// hypervisor code but not the kernel, no inheritance.
pub open spec fn default_config() -> PerfConfig {
    PerfConfig {
        pid: None,
        cpu: None,
        include_kernel: false,
        include_user: true,
        include_hv: true,
        inherit: false,
        enable_on_exec: false,
    }
}

impl Default for PerfConfig {
    fn default() -> (c: Self)
        ensures
            c == default_config(),
    {
        PerfConfig {
            pid: None,
            cpu: None,
            include_kernel: false,
            include_user: true,
            include_hv: true,
            inherit: false,
            enable_on_exec: false,
        }
    }
}

impl PerfConfig {
    pub fn new() -> (c: Self)
        ensures
            c == default_config(),
    {
        PerfConfig::default()
    }

    pub fn with_pid(self, pid: u32) -> (c: Self)
        ensures
            c == (PerfConfig { pid: Some(pid), ..self }),
    {
        PerfConfig { pid: Some(pid), ..self }
    }

    pub fn with_cpu(self, cpu: u32) -> (c: Self)
        ensures
            c == (PerfConfig { cpu: Some(cpu), ..self }),
    {
        PerfConfig { cpu: Some(cpu), ..self }
    }

    /// Observes every CPU.
    pub fn with_all_cpus(self) -> (c: Self)
        ensures
            c == (PerfConfig { cpu: None, ..self }),
    {
        PerfConfig { cpu: None, ..self }
    }

    pub fn with_inherit(self, inherit: bool) -> (c: Self)
        ensures
            c == (PerfConfig { inherit, ..self }),
    {
        PerfConfig { inherit, ..self }
    }

    pub fn with_include_kernel(self, include_kernel: bool) -> (c: Self)
        ensures
            c == (PerfConfig { include_kernel, ..self }),
    {
        PerfConfig { include_kernel, ..self }
    }

    /// Includes exactly the privilege levels that the modifiers do not
    /// exclude.
    pub fn with_modifiers(self, modifiers: EventModifiers) -> (c: Self)
        ensures
            c == (PerfConfig {
                include_user: !modifiers.exclude_user,
                include_kernel: !modifiers.exclude_kernel,
                include_hv: !modifiers.exclude_hv,
                ..self
            }),
    {
        PerfConfig {
            include_user: !modifiers.exclude_user,
            include_kernel: !modifiers.exclude_kernel,
            include_hv: !modifiers.exclude_hv,
            ..self
        }
    }
}

/// Whom a counter observes.
#[derive(Debug, Clone, Copy, PartialEq, Eq, Structural)]
pub enum PidTarget {
    /// The calling process.
    ThisProcess,
    /// The process with this ID; -1 for every process (on one CPU).
    Process(i32),
}

/// What a counter is built with.
#[derive(Debug, Clone, Copy, PartialEq, Eq, Structural)]
pub struct CounterPlan {
    pub who: PidTarget,
    pub cpu: Option<usize>,
    pub exclude_kernel: bool,
    pub exclude_hv: bool,
    pub exclude_user: bool,
    pub inherit: bool,
}

/// The plan for a configuration: a given process, else every process when
/// a CPU is given, else the caller; that CPU or any; the exclusions are
/// the complements of the inclusions.
pub open spec fn counter_plan_spec(c: PerfConfig) -> CounterPlan {
    CounterPlan {
        who: match (c.pid, c.cpu) {
            (Some(p), _) => PidTarget::Process(p as i32),
            (None, Some(_)) => PidTarget::Process(-1i32),
            (None, None) => PidTarget::ThisProcess,
        },
        cpu: match c.cpu {
            Some(n) => Some(n as usize),
            None => None,
        },
        exclude_kernel: !c.include_kernel,
        exclude_hv: !c.include_hv,
        exclude_user: !c.include_user,
        inherit: c.inherit,
    }
}

/// The plan that `create_counter` builds a counter with.
pub fn counter_plan(config: &PerfConfig) -> (p: CounterPlan)
    ensures
        p == counter_plan_spec(*config),
{
    let who = match (config.pid, config.cpu) {
        (Some(p), _) => PidTarget::Process(p as i32),
        (None, Some(_)) => PidTarget::Process(-1),
        (None, None) => PidTarget::ThisProcess,
    };
    let cpu = match config.cpu {
        Some(n) => Some(n as usize),
        None => None,
    };
    CounterPlan {
        who,
        cpu,
        exclude_kernel: !config.include_kernel,
        exclude_hv: !config.include_hv,
        exclude_user: !config.include_user,
        inherit: config.inherit,
    }
}

// ---------------------------------------------------------------------
// The builder of `perf-event2`, with what it has been handed

/// The event that a builder was made for, as the numbers handed to the
/// crate's event type.
#[derive(Debug, Clone, Copy, PartialEq, Eq, Structural)]
pub enum BuiltEvent {
    Hardware(u64),
    Software(u64),
    /// `which | op << 8 | result << 16`.
    Cache(u64),
    Raw(u64, u64, u64),
    Tracepoint(u64),
}

/// What a builder has been handed: the event it was made for, and each
/// setting since (`None` where the crate's default stands); the sample
/// flags are the union of those asked for.
#[derive(Debug, Clone, Copy, PartialEq, Eq, Structural)]
pub struct BuilderSettings {
    pub event: BuiltEvent,
    pub who: Option<PidTarget>,
    pub cpu: Option<Option<usize>>,
    pub exclude_kernel: Option<bool>,
    pub exclude_hv: Option<bool>,
    pub exclude_user: Option<bool>,
    pub inherit: Option<bool>,
    pub enable_on_exec: Option<bool>,
    pub sample_period: Option<u64>,
    pub sample_type: u64,
    pub max_stack: Option<u16>,
    pub regs_user: Option<u64>,
    pub stack_user: Option<u32>,
}

/// A builder just made for an event: nothing handed to it yet.
pub open spec fn fresh_settings(event: BuiltEvent) -> BuilderSettings {
    BuilderSettings {
        event,
        who: None,
        cpu: None,
        exclude_kernel: None,
        exclude_hv: None,
        exclude_user: None,
        inherit: None,
        enable_on_exec: None,
        sample_period: None,
        sample_type: 0,
        max_stack: None,
        regs_user: None,
        stack_user: None,
    }
}

/// The numbers under which an event is handed to the crate.
pub open spec fn built_event(e: EventView) -> BuiltEvent {
    match e {
        EventView::Hardware(h) => BuiltEvent::Hardware(hardware_config(h)),
        EventView::Software(s) => BuiltEvent::Software(software_config(s)),
        EventView::Cache(c) => BuiltEvent::Cache(cache_config(c)),
        EventView::Raw(r) => BuiltEvent::Raw(r.config, r.config1, r.config2),
        EventView::Tracepoint(_, _, id) => BuiltEvent::Tracepoint(id),
    }
}

/// What a counter of an event is built with under a plan.
pub open spec fn counter_settings(event: BuiltEvent, plan: CounterPlan) -> BuilderSettings {
    BuilderSettings {
        who: Some(plan.who),
        cpu: Some(plan.cpu),
        exclude_kernel: Some(plan.exclude_kernel),
        exclude_hv: Some(plan.exclude_hv),
        exclude_user: Some(plan.exclude_user),
        inherit: Some(plan.inherit),
        ..fresh_settings(event)
    }
}

/// A `perf_event::Builder`, with what it has been handed.
pub struct EventBuilder {
    builder: perf_event::Builder<'static>,
    settings: Ghost<BuilderSettings>,
}

impl EventBuilder {
    pub closed spec fn settings(&self) -> BuilderSettings {
        self.settings@
    }
}

/// A counter opened by the kernel, with the settings it was built with.
pub struct PerfCounter {
    counter: perf_event::Counter,
    settings: Ghost<BuilderSettings>,
}

impl PerfCounter {
    pub closed spec fn settings(&self) -> BuilderSettings {
        self.settings@
    }

    /// The settings, to carry along.
    pub(crate) fn settings_ghost(&self) -> (g: Ghost<BuilderSettings>)
        ensures
            g@ == self.settings(),
    {
        self.settings
    }

    /// The counter of the crate.
    pub(crate) fn into_counter(self) -> perf_event::Counter {
        self.counter
    }
}

/// `Builder::new(Hardware::from(config))`: a builder for the hardware
/// counter of that number, with nothing else handed to it.
#[verifier::external_body]
pub(crate) fn builder_hardware(config: u64) -> (b: EventBuilder)
    ensures
        b.settings() == fresh_settings(BuiltEvent::Hardware(config)),
{
    let builder = perf_event::Builder::new(perf_event::events::Hardware::from(config));
    EventBuilder { builder, settings: Ghost(fresh_settings(BuiltEvent::Hardware(config))) }
}

/// `Builder::new(Software::from(config))`: a builder for the software
/// counter of that number.
#[verifier::external_body]
pub(crate) fn builder_software(config: u64) -> (b: EventBuilder)
    ensures
        b.settings() == fresh_settings(BuiltEvent::Software(config)),
{
    let builder = perf_event::Builder::new(perf_event::events::Software::from(config));
    EventBuilder { builder, settings: Ghost(fresh_settings(BuiltEvent::Software(config))) }
}

/// `Builder::new(Cache { .. })`: a builder for the cache counter of the
/// given cache, operation and result numbers.
#[verifier::external_body]
pub(crate) fn builder_cache(which: u8, operation: u8, result: u8) -> (b: EventBuilder)
    ensures
        b.settings() == fresh_settings(
            BuiltEvent::Cache((which as u64 + operation as u64 * 256 + result as u64 * 65536) as u64),
        ),
{
    let cache = perf_event::events::Cache {
        which: perf_event::events::CacheId::from(which),
        operation: perf_event::events::CacheOp::from(operation),
        result: perf_event::events::CacheResult::from(result),
    };
    let settings = Ghost(
        fresh_settings(BuiltEvent::Cache((which as u64 + operation as u64 * 256 + result as u64 * 65536) as u64)),
    );
    EventBuilder { builder: perf_event::Builder::new(cache), settings }
}

/// `Builder::new(Raw { config, config1, config2 })`: a builder for a raw
/// counter.
#[verifier::external_body]
pub(crate) fn builder_raw(config: u64, config1: u64, config2: u64) -> (b: EventBuilder)
    ensures
        b.settings() == fresh_settings(BuiltEvent::Raw(config, config1, config2)),
{
    let mut raw = perf_event::events::Raw::new(config);
    raw.config1 = config1;
    raw.config2 = config2;
    let settings = Ghost(fresh_settings(BuiltEvent::Raw(config, config1, config2)));
    EventBuilder { builder: perf_event::Builder::new(raw), settings }
}

/// `Builder::new(Tracepoint::with_id(id))`: a builder for a tracepoint
/// counter.
#[verifier::external_body]
pub(crate) fn builder_tracepoint(id: u64) -> (b: EventBuilder)
    ensures
        b.settings() == fresh_settings(BuiltEvent::Tracepoint(id)),
{
    let builder = perf_event::Builder::new(perf_event::events::Tracepoint::with_id(id));
    EventBuilder { builder, settings: Ghost(fresh_settings(BuiltEvent::Tracepoint(id))) }
}

/// `Builder::observe_pid`: observe the process `pid` (-1 for every one).
#[verifier::external_body]
pub(crate) fn builder_observe_pid(b: &mut EventBuilder, pid: i32)
    ensures
        final(b).settings() == (BuilderSettings { who: Some(PidTarget::Process(pid)), ..old(b).settings() }),
{
    b.builder.observe_pid(pid);
}

/// `Builder::observe_self`: observe the calling process.
#[verifier::external_body]
pub(crate) fn builder_observe_self(b: &mut EventBuilder)
    ensures
        final(b).settings() == (BuilderSettings { who: Some(PidTarget::ThisProcess), ..old(b).settings() }),
{
    b.builder.observe_self();
}

/// `Builder::one_cpu`: only on this CPU.
#[verifier::external_body]
pub(crate) fn builder_one_cpu(b: &mut EventBuilder, cpu: usize)
    ensures
        final(b).settings() == (BuilderSettings { cpu: Some(Some(cpu)), ..old(b).settings() }),
{
    b.builder.one_cpu(cpu);
}

/// `Builder::any_cpu`: on any CPU.
#[verifier::external_body]
pub(crate) fn builder_any_cpu(b: &mut EventBuilder)
    ensures
        final(b).settings() == (BuilderSettings { cpu: Some(None), ..old(b).settings() }),
{
    b.builder.any_cpu();
}

/// `Builder::exclude_kernel`.
#[verifier::external_body]
pub(crate) fn builder_exclude_kernel(b: &mut EventBuilder, exclude: bool)
    ensures
        final(b).settings() == (BuilderSettings { exclude_kernel: Some(exclude), ..old(b).settings() }),
{
    b.builder.exclude_kernel(exclude);
}

/// `Builder::exclude_hv`.
#[verifier::external_body]
pub(crate) fn builder_exclude_hv(b: &mut EventBuilder, exclude: bool)
    ensures
        final(b).settings() == (BuilderSettings { exclude_hv: Some(exclude), ..old(b).settings() }),
{
    b.builder.exclude_hv(exclude);
}

/// `Builder::exclude_user`.
#[verifier::external_body]
pub(crate) fn builder_exclude_user(b: &mut EventBuilder, exclude: bool)
    ensures
        final(b).settings() == (BuilderSettings { exclude_user: Some(exclude), ..old(b).settings() }),
{
    b.builder.exclude_user(exclude);
}

/// `Builder::inherit`.
#[verifier::external_body]
pub(crate) fn builder_inherit(b: &mut EventBuilder, inherit: bool)
    ensures
        final(b).settings() == (BuilderSettings { inherit: Some(inherit), ..old(b).settings() }),
{
    b.builder.inherit(inherit);
}

/// `Builder::sample_period`.
#[verifier::external_body]
pub(crate) fn builder_sample_period(b: &mut EventBuilder, period: u64)
    ensures
        final(b).settings() == (BuilderSettings { sample_period: Some(period), ..old(b).settings() }),
{
    b.builder.sample_period(period);
}

/// `Builder::enable_on_exec`.
#[verifier::external_body]
pub(crate) fn builder_enable_on_exec(b: &mut EventBuilder, on: bool)
    ensures
        final(b).settings() == (BuilderSettings { enable_on_exec: Some(on), ..old(b).settings() }),
{
    b.builder.enable_on_exec(on);
}

/// `Builder::sample` with the flags of the given bits, which the crate
/// adds to those already asked for.
#[verifier::external_body]
pub(crate) fn builder_sample(b: &mut EventBuilder, bits: u64)
    ensures
        final(b).settings() == (BuilderSettings { sample_type: old(b).settings().sample_type | bits, ..old(b).settings() }),
{
    b.builder.sample(perf_event::SampleFlag::from_bits_retain(bits));
}

/// `Builder::sample_max_stack`.
#[verifier::external_body]
pub(crate) fn builder_sample_max_stack(b: &mut EventBuilder, max_stack: u16)
    ensures
        final(b).settings() == (BuilderSettings { max_stack: Some(max_stack), ..old(b).settings() }),
{
    b.builder.sample_max_stack(max_stack);
}

/// `Builder::sample_regs_user`.
#[verifier::external_body]
pub(crate) fn builder_sample_regs_user(b: &mut EventBuilder, regs: u64)
    ensures
        final(b).settings() == (BuilderSettings { regs_user: Some(regs), ..old(b).settings() }),
{
    b.builder.sample_regs_user(regs);
}

/// `Builder::sample_stack_user`.
#[verifier::external_body]
pub(crate) fn builder_sample_stack_user(b: &mut EventBuilder, stack: u32)
    ensures
        final(b).settings() == (BuilderSettings { stack_user: Some(stack), ..old(b).settings() }),
{
    b.builder.sample_stack_user(stack);
}

/// `Builder::build`: opens the counter with what the builder holds.
/// Whether the kernel opens it depends on the kernel and the user's
/// privileges; on failure, the message of the I/O error.
#[verifier::external_body]
pub(crate) fn builder_build(b: &EventBuilder) -> (r: Result<PerfCounter, String>)
    ensures
        r matches Ok(c) ==> c.settings() == b.settings(),
{
    match b.builder.build() {
        Ok(c) => Ok(PerfCounter { counter: c, settings: b.settings }),
        Err(e) => Err(e.to_string()),
    }
}

/// `Counter::enable`: starts counting; on failure, the message of the
/// I/O error. Whether the kernel accepts it is its own answer.
#[verifier::external_body]
pub(crate) fn counter_enable(c: &mut PerfCounter) -> (r: Result<(), String>)
    ensures
        final(c).settings() == old(c).settings(),
{
    match c.counter.enable() {
        Ok(()) => Ok(()),
        Err(e) => Err(e.to_string()),
    }
}

/// `Counter::disable`: stops counting; on failure, the message of the
/// I/O error.
#[verifier::external_body]
pub(crate) fn counter_disable(c: &mut PerfCounter) -> (r: Result<(), String>)
    ensures
        final(c).settings() == old(c).settings(),
{
    match c.counter.disable() {
        Ok(()) => Ok(()),
        Err(e) => Err(e.to_string()),
    }
}

/// `Counter::read`: the current count, which the kernel gives; on
/// failure, the message of the I/O error.
#[verifier::external_body]
pub(crate) fn counter_read(c: &mut PerfCounter) -> (r: Result<u64, String>)
    ensures
        final(c).settings() == old(c).settings(),
{
    match c.counter.read() {
        Ok(v) => Ok(v),
        Err(e) => Err(e.to_string()),
    }
}

fn cache_numbers(c: &Cache) -> (r: (u8, u8, u8))
    ensures
        r.0 as u64 + r.1 as u64 * 256 + r.2 as u64 * 65536 == cache_config(*c),
{
    let w: u8 = match c.which {
        CacheId::L1D => 0,
        CacheId::L1I => 1,
        CacheId::LL => 2,
        CacheId::DTLB => 3,
        CacheId::ITLB => 4,
        CacheId::BPU => 5,
        CacheId::NODE => 6,
    };
    let o: u8 = match c.operation {
        CacheOp::READ => 0,
        CacheOp::WRITE => 1,
        CacheOp::PREFETCH => 2,
    };
    let r: u8 = match c.result {
        CacheResult::ACCESS => 0,
        CacheResult::MISS => 1,
    };
    (w, o, r)
}

/// A builder for an event: the event's kind and numbers handed to the
/// crate.
pub(crate) fn new_builder(event: &PerfEvent) -> (b: EventBuilder)
    ensures
        b.settings() == fresh_settings(built_event(event@)),
{
    match event {
        PerfEvent::Hardware(h) => builder_hardware(h.config()),
        PerfEvent::Software(s) => builder_software(s.config()),
        PerfEvent::Cache(c) => {
            let (w, o, r) = cache_numbers(c);
            builder_cache(w, o, r)
        },
        PerfEvent::Raw(r) => builder_raw(r.config, r.config1, r.config2),
        PerfEvent::Tracepoint(t) => builder_tracepoint(t.id),
    }
}

/// Hands a counter plan to a fresh builder.
fn apply_counter_plan(b: &mut EventBuilder, plan: &CounterPlan)
    requires
        old(b).settings() == fresh_settings(old(b).settings().event),
    ensures
        final(b).settings() == counter_settings(old(b).settings().event, *plan),
{
    match plan.who {
        PidTarget::Process(pid) => builder_observe_pid(b, pid),
        PidTarget::ThisProcess => builder_observe_self(b),
    }
    match plan.cpu {
        Some(cpu) => builder_one_cpu(b, cpu),
        None => builder_any_cpu(b),
    }
    builder_exclude_kernel(b, plan.exclude_kernel);
    builder_exclude_hv(b, plan.exclude_hv);
    builder_exclude_user(b, plan.exclude_user);
    builder_inherit(b, plan.inherit);
}

/// Opens a counter for an event with the plan of `counter_plan(config)`:
/// the counter is built with exactly the event's numbers and that plan. A
/// failure to open it (the kernel's answer) is a `CounterSetup` error with
/// its message.
pub fn create_counter(event: &PerfEvent, config: &PerfConfig) -> (r: Result<PerfCounter, PerfError>)
    ensures
        r matches Ok(c) ==> c.settings() == counter_settings(built_event(event@), counter_plan_spec(*config)),
        r matches Err(e) ==> e is CounterSetup,
{
    let plan = counter_plan(config);
    let mut b = new_builder(event);
    apply_counter_plan(&mut b, &plan);
    match builder_build(&b) {
        Ok(c) => Ok(c),
        Err(m) => Err(PerfError::CounterSetup { source: m }),
    }
}

/// Starts a counter; a failure is a `CounterEnable` error naming the
/// event. The counter keeps its settings.
pub fn enable_counter(counter: &mut PerfCounter, event_name: &str) -> (r: Result<(), PerfError>)
    ensures
        final(counter).settings() == old(counter).settings(),
        r matches Err(e) ==> (e matches PerfError::CounterEnable { event_name: n, .. } && n@
            == event_name@),
{
    match counter_enable(counter) {
        Ok(()) => Ok(()),
        Err(m) => Err(PerfError::CounterEnable { event_name: string_of(event_name), source: m }),
    }
}

/// Stops a counter; a failure is a `CounterDisable` error naming the
/// event. The counter keeps its settings.
pub fn disable_counter(counter: &mut PerfCounter, event_name: &str) -> (r: Result<(), PerfError>)
    ensures
        final(counter).settings() == old(counter).settings(),
        r matches Err(e) ==> (e matches PerfError::CounterDisable { event_name: n, .. } && n@
            == event_name@),
{
    match counter_disable(counter) {
        Ok(()) => Ok(()),
        Err(m) => Err(PerfError::CounterDisable { event_name: string_of(event_name), source: m }),
    }
}

/// Reads a counter; a failure is a `CounterRead` error naming the event.
/// The counter keeps its settings.
pub fn read_counter(counter: &mut PerfCounter, event_name: &str) -> (r: Result<u64, PerfError>)
    ensures
        final(counter).settings() == old(counter).settings(),
        r matches Err(e) ==> (e matches PerfError::CounterRead { event_name: n, .. } && n@
            == event_name@),
{
    match counter_read(counter) {
        Ok(v) => Ok(v),
        Err(m) => Err(PerfError::CounterRead { event_name: string_of(event_name), source: m }),
    }
}

} // verus!
