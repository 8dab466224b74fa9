//! Performance monitoring unit (PMU) events of each architecture, and the
//! events that the kernel lists under sysfs.

pub mod arm64;
pub mod riscv64;
pub mod x86_64;

use vstd::prelude::*;
use crate::text::{
    chars_to_string, has_prefix, parse_uint_chars, parse_uint_max, push_str, split,
    split_chars, str_to_chars, string_of, sub_chars, trim, trim_chars, find_char, first_index,
};

verus! {

/// A processor architecture.
#[derive(Debug, Clone, Copy, PartialEq, Eq, Hash, Structural)]
pub enum Arch {
    X86_64,
    Arm64,
    RiscV64,
    Unknown,
}

pub open spec fn arch_name(a: Arch) -> Seq<char> {
    match a {
        Arch::X86_64 => "x86_64"@,
        Arch::Arm64 => "arm64"@,
        Arch::RiscV64 => "riscv64"@,
        Arch::Unknown => "unknown"@,
    }
}

impl Arch {
    /// The architecture's name.
    pub fn to_string(&self) -> (r: String)
        ensures
            r@ == arch_name(*self),
    {
        match self {
            Arch::X86_64 => string_of("x86_64"),
            Arch::Arm64 => string_of("arm64"),
            Arch::RiscV64 => string_of("riscv64"),
            Arch::Unknown => string_of("unknown"),
        }
    }
}

/// The architecture that a machine name (as `uname -m` prints it, trimmed
/// here) denotes.
pub open spec fn arch_of_machine(m: Seq<char>) -> Arch {
    if m == "x86_64"@ || m == "amd64"@ {
        Arch::X86_64
    } else if m == "aarch64"@ || m == "arm64"@ {
        Arch::Arm64
    } else if m == "riscv64"@ {
        Arch::RiscV64
    } else {
        Arch::Unknown
    }
}

/// The architecture of the machine whose name is given.
pub fn detect_arch(machine: &str) -> (r: Arch)
    ensures
        r == arch_of_machine(trim(machine@)),
{
    let m = trim_chars(str_to_chars(machine).as_slice());
    if crate::text::chars_eq_str(m.as_slice(), "x86_64") || crate::text::chars_eq_str(m.as_slice(), "amd64") {
        Arch::X86_64
    } else if crate::text::chars_eq_str(m.as_slice(), "aarch64") || crate::text::chars_eq_str(m.as_slice(), "arm64") {
        Arch::Arm64
    } else if crate::text::chars_eq_str(m.as_slice(), "riscv64") {
        Arch::RiscV64
    } else {
        Arch::Unknown
    }
}

/// The raw configuration of an event, as sysfs states it.
#[derive(Debug, Clone, Copy, PartialEq, Eq, Structural)]
pub struct PmuEventConfig {
    pub event: u64,
    pub umask: Option<u64>,
    pub cmask: Option<u64>,
    pub any: Option<u64>,
    pub edge: Option<u64>,
    pub inv: Option<u64>,
    pub ldlat: Option<u64>,
}

/// A PMU event: its name, other names, description, category, raw
/// configuration when known, and whether sysfs listed it.
#[derive(Debug, Clone)]
pub struct PmuEvent {
    pub name: String,
    pub aliases: Vec<String>,
    pub description: String,
    pub category: String,
    pub config: Option<PmuEventConfig>,
    pub from_sysfs: bool,
}

/// An event as plain values.
pub ghost struct PmuEventView {
    pub name: Seq<char>,
    pub aliases: Seq<Seq<char>>,
    pub description: Seq<char>,
    pub category: Seq<char>,
    pub config: Option<PmuEventConfig>,
    pub from_sysfs: bool,
}

impl View for PmuEvent {
    type V = PmuEventView;

    open spec fn view(&self) -> PmuEventView {
        PmuEventView {
            name: self.name@,
            aliases: self.aliases@.map_values(|s: String| s@),
            description: self.description@,
            category: self.category@,
            config: self.config,
            from_sysfs: self.from_sysfs,
        }
    }
}

pub open spec fn events_view(s: Seq<PmuEvent>) -> Seq<PmuEventView> {
    s.map_values(|e: PmuEvent| e@)
}

/// An event of a built-in table.
pub open spec fn table_event(
    name: Seq<char>,
    aliases: Seq<Seq<char>>,
    description: Seq<char>,
    category: Seq<char>,
) -> PmuEventView {
    PmuEventView { name, aliases, description, category, config: None, from_sysfs: false }
}

impl PmuEvent {
    /// A hardware event with no alias, no configuration.
    pub fn new(name: &str, description: &str) -> (e: Self)
        ensures
            e@ == table_event(name@, seq![], description@, "Hardware event"@),
    {
        let e = PmuEvent {
            name: string_of(name),
            aliases: Vec::new(),
            description: string_of(description),
            category: string_of("Hardware event"),
            config: None,
            from_sysfs: false,
        };
        assert(e@.aliases =~= seq![]);
        e
    }

    /// The same event with one more alias.
    pub fn with_alias(self, alias: &str) -> (e: Self)
        ensures
            e@ == (PmuEventView { aliases: self@.aliases.push(alias@), ..self@ }),
    {
        let mut e = self;
        e.aliases.push(string_of(alias));
        assert(e@.aliases =~= self@.aliases.push(alias@));
        e
    }

    /// The same event in another category.
    pub fn with_category(self, category: &str) -> (e: Self)
        ensures
            e@ == (PmuEventView { category: category@, ..self@ }),
    {
        let mut e = self;
        e.category = string_of(category);
        e
    }

    /// The same event with a raw configuration.
    pub fn with_config(self, config: PmuEventConfig) -> (e: Self)
        ensures
            e@ == (PmuEventView { config: Some(config), ..self@ }),
    {
        let mut e = self;
        e.config = Some(config);
        e
    }

    /// The same event, marked as listed by sysfs.
    pub fn from_sysfs(self) -> (e: Self)
        ensures
            e@ == (PmuEventView { from_sysfs: true, ..self@ }),
    {
        let mut e = self;
        e.from_sysfs = true;
        e
    }
}

// ---------------------------------------------------------------------
// Raw configurations, as sysfs writes them

/// `s` with every leading `0x` removed.
pub open spec fn strip_hex_prefixes(s: Seq<char>) -> Seq<char>
    decreases s.len(),
{
    if has_prefix(s, "0x"@) && s.len() >= 2 {
        strip_hex_prefixes(s.subrange(2, s.len() as int))
    } else {
        s
    }
}

/// The number that a configuration value denotes: hexadecimal after a
/// `0x` prefix, decimal otherwise.
pub open spec fn config_value(v: Seq<char>) -> Option<u64> {
    let n = if has_prefix(v, "0x"@) {
        parse_uint_max(strip_hex_prefixes(v), 16, u64::MAX as nat)
    } else {
        parse_uint_max(v, 10, u64::MAX as nat)
    };
    match n {
        Some(x) => Some(x as u64),
        None => None,
    }
}

/// What one comma-separated part of a configuration contributes.
pub ghost enum ConfigPart {
    /// No `=`: the part is ignored.
    Ignore,
    /// A value that is not a number: the whole configuration is refused.
    Bad,
    /// A key and its value.
    Assign(Seq<char>, u64),
}

pub open spec fn config_part(part: Seq<char>) -> ConfigPart {
    let p = trim(part);
    match first_index(p, '=') {
        None => ConfigPart::Ignore,
        Some(i) => match config_value(trim(p.subrange(i + 1, p.len() as int))) {
            None => ConfigPart::Bad,
            Some(n) => ConfigPart::Assign(trim(p.subrange(0, i)), n),
        },
    }
}

/// A configuration with `key` set to `n`; unknown keys change nothing.
pub open spec fn apply_config_key(c: PmuEventConfig, key: Seq<char>, n: u64) -> PmuEventConfig {
    if key == "event"@ {
        PmuEventConfig { event: n, ..c }
    } else if key == "umask"@ {
        PmuEventConfig { umask: Some(n), ..c }
    } else if key == "cmask"@ {
        PmuEventConfig { cmask: Some(n), ..c }
    } else if key == "any"@ {
        PmuEventConfig { any: Some(n), ..c }
    } else if key == "edge"@ {
        PmuEventConfig { edge: Some(n), ..c }
    } else if key == "inv"@ {
        PmuEventConfig { inv: Some(n), ..c }
    } else if key == "ldlat"@ {
        PmuEventConfig { ldlat: Some(n), ..c }
    } else {
        c
    }
}

/// The configuration field that a key names: `event`, `umask`, `cmask`,
/// `any`, `edge`, `inv` or `ldlat` (`None` for any other key).
pub open spec fn config_field(c: PmuEventConfig, key: Seq<char>) -> Option<u64> {
    if key == "event"@ {
        Some(c.event)
    } else if key == "umask"@ {
        c.umask
    } else if key == "cmask"@ {
        c.cmask
    } else if key == "any"@ {
        c.any
    } else if key == "edge"@ {
        c.edge
    } else if key == "inv"@ {
        c.inv
    } else if key == "ldlat"@ {
        c.ldlat
    } else {
        None
    }
}

/// Whether a key names a configuration field.
pub open spec fn is_config_key(key: Seq<char>) -> bool {
    key == "event"@ || key == "umask"@ || key == "cmask"@ || key == "any"@ || key == "edge"@ || key
        == "inv"@ || key == "ldlat"@
}

/// A `key=n` part sets the field that the key names to `n` and leaves every
/// other field as it was; a key that names no field changes nothing.
pub proof fn lemma_config_key_sets_only_its_field(c: PmuEventConfig, key: Seq<char>, n: u64, other: Seq<char>)
    ensures
        is_config_key(key) ==> config_field(apply_config_key(c, key, n), key) == Some(n),
        is_config_key(other) && other != key ==> config_field(apply_config_key(c, key, n), other)
            == config_field(c, other),
        !is_config_key(key) ==> apply_config_key(c, key, n) == c,
{
    reveal_strlit("event");
    reveal_strlit("umask");
    reveal_strlit("cmask");
    reveal_strlit("any");
    reveal_strlit("edge");
    reveal_strlit("inv");
    reveal_strlit("ldlat");
}

pub open spec fn empty_config() -> PmuEventConfig {
    PmuEventConfig { event: 0, umask: None, cmask: None, any: None, edge: None, inv: None, ldlat: None }
}

/// The configuration that the parts give, applied left to right, or
/// `None` when a value is not a number.
pub open spec fn config_of_parts(parts: Seq<Seq<char>>) -> Option<PmuEventConfig>
    decreases parts.len(),
{
    if parts.len() == 0 {
        Some(empty_config())
    } else {
        match config_of_parts(parts.drop_last()) {
            None => None,
            Some(c) => match config_part(parts.last()) {
                ConfigPart::Ignore => Some(c),
                ConfigPart::Bad => None,
                ConfigPart::Assign(k, n) => Some(apply_config_key(c, k, n)),
            },
        }
    }
}

/// The configuration that a sysfs event file states:
/// `event=0xXX[,umask=0xXX][,cmask=N]...`.
pub open spec fn event_config_spec(content: Seq<char>) -> Option<PmuEventConfig> {
    config_of_parts(split(content, ','))
}

fn strip_hex_prefixes_chars(v: &[char]) -> (r: Vec<char>)
    ensures
        r@ == strip_hex_prefixes(v@),
{
    let mut cur: Vec<char> = sub_chars(v, 0, v.len());
    assert(cur@ =~= v@);
    while cur.len() >= 2 && cur[0] == '0' && cur[1] == 'x'
        invariant
            strip_hex_prefixes(cur@) == strip_hex_prefixes(v@),
        decreases cur@.len(),
    {
        proof {
            reveal_strlit("0x");
            assert(has_prefix(cur@, "0x"@)) by {
                assert(cur@.subrange(0, 2) =~= "0x"@);
            }
        }
        cur = sub_chars(cur.as_slice(), 2, cur.len());
    }
    proof {
        reveal_strlit("0x");
        if cur@.len() >= 2 && has_prefix(cur@, "0x"@) {
            assert(cur@.subrange(0, 2)[0] == '0');
            assert(cur@.subrange(0, 2)[1] == 'x');
        }
    }
    cur
}

fn config_value_chars(v: &[char]) -> (r: Option<u64>)
    ensures
        r == config_value(v@),
{
    if crate::text::starts_with_str(v, "0x") {
        let d = strip_hex_prefixes_chars(v);
        parse_uint_chars(d.as_slice(), 16, 0xffff_ffff_ffff_ffff)
    } else {
        parse_uint_chars(v, 10, 0xffff_ffff_ffff_ffff)
    }
}

fn apply_key_chars(c: PmuEventConfig, key: &[char], n: u64) -> (r: PmuEventConfig)
    ensures
        r == apply_config_key(c, key@, n),
{
    if crate::text::chars_eq_str(key, "event") {
        PmuEventConfig { event: n, ..c }
    } else if crate::text::chars_eq_str(key, "umask") {
        PmuEventConfig { umask: Some(n), ..c }
    } else if crate::text::chars_eq_str(key, "cmask") {
        PmuEventConfig { cmask: Some(n), ..c }
    } else if crate::text::chars_eq_str(key, "any") {
        PmuEventConfig { any: Some(n), ..c }
    } else if crate::text::chars_eq_str(key, "edge") {
        PmuEventConfig { edge: Some(n), ..c }
    } else if crate::text::chars_eq_str(key, "inv") {
        PmuEventConfig { inv: Some(n), ..c }
    } else if crate::text::chars_eq_str(key, "ldlat") {
        PmuEventConfig { ldlat: Some(n), ..c }
    } else {
        c
    }
}

/// Where the kernel lists PMU devices and their events.
pub struct SysfsEventDiscovery {
    sysfs_path: String,
}

pub open spec fn default_sysfs_path() -> Seq<char> {
    "/sys/bus/event_source/devices"@
}

/// The events of one device's sysfs files, in order: each readable file
/// whose contents give a configuration.
pub open spec fn discovered_events(
    device: Seq<char>,
    files: Seq<(Seq<char>, Seq<char>)>,
) -> Seq<PmuEventView>
    decreases files.len(),
{
    if files.len() == 0 {
        Seq::empty()
    } else {
        let prev = discovered_events(device, files.drop_last());
        let (name, content) = files.last();
        match event_config_spec(content) {
            Some(c) => prev.push(sysfs_event(device, name, c)),
            None => prev,
        }
    }
}

/// The event that a sysfs file of a device describes.
pub open spec fn sysfs_event(device: Seq<char>, name: Seq<char>, c: PmuEventConfig) -> PmuEventView {
    PmuEventView {
        name,
        aliases: seq![],
        description: device + " PMU event: "@ + name,
        category: device + " event"@,
        config: Some(c),
        from_sysfs: true,
    }
}

pub open spec fn files_view(files: Seq<(String, String)>) -> Seq<(Seq<char>, Seq<char>)> {
    files.map_values(|f: (String, String)| (f.0@, f.1@))
}

impl SysfsEventDiscovery {
    /// The directory that holds the devices.
    pub closed spec fn path_view(&self) -> Seq<char> {
        self.sysfs_path@
    }

    /// Discovery under `/sys/bus/event_source/devices`.
    pub fn new() -> (d: Self)
        ensures
            d.path_view() == default_sysfs_path(),
    {
        SysfsEventDiscovery { sysfs_path: string_of("/sys/bus/event_source/devices") }
    }

    /// Discovery under another directory.
    pub fn with_path(path: &str) -> (d: Self)
        ensures
            d.path_view() == path@,
    {
        SysfsEventDiscovery { sysfs_path: string_of(path) }
    }

    /// The directory that holds the devices.
    pub fn sysfs_path(&self) -> (r: &String)
        ensures
            r@ == self.path_view(),
    {
        &self.sysfs_path
    }

    /// Parses the contents of an event file. A part without `=` is
    /// ignored, unknown keys are ignored, and a value that is not a number
    /// refuses the whole.
    pub fn parse_event_config(&self, content: &str) -> (r: Option<PmuEventConfig>)
        ensures
            r == event_config_spec(content@),
    {
        let chars = str_to_chars(content);
        let parts = split_chars(chars.as_slice(), ',');
        let ghost ps = split(content@, ',');
        let n: usize = parts.len();
        let mut config = PmuEventConfig {
            event: 0,
            umask: None,
            cmask: None,
            any: None,
            edge: None,
            inv: None,
            ldlat: None,
        };
        let mut i: usize = 0;
        while i < n
            invariant
                0 <= i <= n,
                n == parts@.len(),
                ps == split(content@, ','),
                ps.len() == n,
                forall|k: int| 0 <= k < n ==> #[trigger] parts@[k]@ == ps[k],
                config_of_parts(ps.subrange(0, i as int)) == Some(config),
            decreases n - i,
        {
            let ghost pre = ps.subrange(0, i as int);
            let ghost post = ps.subrange(0, i + 1);
            assert(post.drop_last() =~= pre);
            assert(post.last() == ps[i as int]);
            let p = trim_chars(parts[i].as_slice());
            match find_char(p.as_slice(), '=') {
                None => {},
                Some(eq) => {
                    let key = trim_chars(sub_chars(p.as_slice(), 0, eq).as_slice());
                    let plen: usize = p.len();
                    let value = trim_chars(sub_chars(p.as_slice(), eq + 1, plen).as_slice());
                    match config_value_chars(value.as_slice()) {
                        None => {
                            proof {
                                lemma_config_none_sticky(ps, i as int + 1, n as int);
                            }
                            assert(ps.subrange(0, n as int) =~= ps);
                            return None;
                        },
                        Some(v) => {
                            config = apply_key_chars(config, key.as_slice(), v);
                        },
                    }
                },
            }
            i = i + 1;
        }
        assert(ps.subrange(0, n as int) =~= ps);
        Some(config)
    }

    /// The event that an event file of a device describes, if its
    /// contents parse.
    pub fn parse_event_file(&self, device: &str, event_name: &str, content: &str) -> (r: Option<PmuEvent>)
        ensures
            match event_config_spec(content@) {
                Some(c) => r matches Some(e) && e@ == sysfs_event(device@, event_name@, c),
                None => r is None,
            },
    {
        let config = match self.parse_event_config(content) {
            Some(c) => c,
            None => {
                return None;
            },
        };
        let mut d: Vec<char> = Vec::new();
        push_str(&mut d, device);
        push_str(&mut d, " PMU event: ");
        push_str(&mut d, event_name);
        let description = chars_to_string(d.as_slice());
        let mut cat: Vec<char> = Vec::new();
        push_str(&mut cat, device);
        push_str(&mut cat, " event");
        let category = chars_to_string(cat.as_slice());
        let e = PmuEvent {
            name: string_of(event_name),
            aliases: Vec::new(),
            description,
            category,
            config: Some(config),
            from_sysfs: true,
        };
        assert(e@.aliases =~= seq![]);
        assert(e@ =~= sysfs_event(device@, event_name@, config));
        Some(e)
    }

    /// The events of a device, from its event files: each file's name and
    /// contents, in the order the directory lists them (files that could
    /// not be read are left out by the caller).
    pub fn discover_events(&self, device: &str, files: &[(String, String)]) -> (r: Vec<PmuEvent>)
        ensures
            events_view(r@) == discovered_events(device@, files_view(files@)),
    {
        let ghost fs = files_view(files@);
        let mut events: Vec<PmuEvent> = Vec::new();
        let n: usize = files.len();
        let mut i: usize = 0;
        while i < n
            invariant
                0 <= i <= n,
                n == files@.len(),
                fs == files_view(files@),
                events_view(events@) == discovered_events(device@, fs.subrange(0, i as int)),
            decreases n - i,
        {
            assert(fs.subrange(0, i + 1).drop_last() =~= fs.subrange(0, i as int));
            let (name, content) = &files[i];
            match self.parse_event_file(device, name.as_str(), content.as_str()) {
                Some(e) => {
                    events.push(e);
                },
                None => {},
            }
            assert(events_view(events@) =~= discovered_events(device@, fs.subrange(0, i + 1)));
            i = i + 1;
        }
        assert(fs.subrange(0, n as int) =~= fs);
        events
    }

    /// The events of the `cpu` device.
    pub fn discover_cpu_events(&self, files: &[(String, String)]) -> (r: Vec<PmuEvent>)
        ensures
            events_view(r@) == discovered_events("cpu"@, files_view(files@)),
    {
        self.discover_events("cpu", files)
    }
}

proof fn lemma_config_none_sticky(parts: Seq<Seq<char>>, k: int, n: int)
    requires
        0 <= k <= n <= parts.len(),
    ensures
        config_of_parts(parts.subrange(0, k)) is None ==> config_of_parts(parts.subrange(0, n)) is None,
    decreases n - k,
{
    if k < n {
        lemma_config_none_sticky(parts, k, n - 1);
        assert(parts.subrange(0, n).drop_last() =~= parts.subrange(0, n - 1));
    }
}

// ---------------------------------------------------------------------
// Merging the built-in tables with what sysfs lists

/// Some event of `s` has the name `n`.
pub open spec fn has_event_named(s: Seq<PmuEventView>, n: Seq<char>) -> bool {
    exists|i: int| 0 <= i < s.len() && #[trigger] s[i].name == n
}

/// `extra` appended to `base` one by one, each only if no event gathered
/// so far has its name.
pub open spec fn merge_by_name(base: Seq<PmuEventView>, extra: Seq<PmuEventView>) -> Seq<PmuEventView>
    decreases extra.len(),
{
    if extra.len() == 0 {
        base
    } else {
        let m = merge_by_name(base, extra.drop_last());
        if has_event_named(m, extra.last().name) {
            m
        } else {
            m.push(extra.last())
        }
    }
}

/// Appends to `events` each event of `extra` whose name is not among them
/// yet.
pub fn merge_events(events: &mut Vec<PmuEvent>, extra: Vec<PmuEvent>)
    ensures
        events_view(final(events)@) == merge_by_name(events_view(old(events)@), events_view(extra@)),
{
    let ghost base = events_view(events@);
    let ghost ex = events_view(extra@);
    let mut rest = extra;
    let total: usize = rest.len();
    let mut k: usize = 0;
    while rest.len() > 0
        invariant
            k + rest@.len() == total,
            total == ex.len(),
            events_view(rest@) == ex.subrange(k as int, total as int),
            events_view(events@) == merge_by_name(base, ex.subrange(0, k as int)),
        decreases rest@.len(),
    {
        let ghost r0 = rest@;
        assert(events_view(r0) =~= ex.subrange(k as int, total as int));
        let e = rest.remove(0);
        assert(rest@ =~= r0.subrange(1, r0.len() as int));
        assert forall|i: int| 0 <= i < rest@.len() implies events_view(rest@)[i] == ex.subrange(
            k + 1,
            total as int,
        )[i] by {
            assert(rest@[i] == r0[i + 1]);
            assert(events_view(r0)[i + 1] == ex.subrange(k as int, total as int)[i + 1]);
        }
        assert(events_view(rest@) =~= ex.subrange(k + 1, total as int));
        assert(e == r0[0]);
        assert(events_view(r0)[0] == ex[k as int]);
        let ghost m = events_view(events@);
        let mut found = false;
        let m_len: usize = events.len();
        let mut j: usize = 0;
        while j < m_len
            invariant
                0 <= j <= m_len,
                m_len == events@.len(),
                m == events_view(events@),
                found == exists|t: int| 0 <= t < j && #[trigger] m[t].name == e@.name,
            decreases m_len - j,
        {
            proof {
                assert(m[j as int] == events@[j as int]@);
                assert(m[j as int].name == events@[j as int].name@);
            }
            if events[j].name == e.name {
                found = true;
            }
            j = j + 1;
        }
        assert(ex.subrange(0, k + 1).drop_last() =~= ex.subrange(0, k as int));
        assert(ex.subrange(0, k + 1).last() == ex[k as int]);
        if !found {
            events.push(e);
            assert(events_view(events@) =~= m.push(ex[k as int]));
        }
        k = k + 1;
    }
    assert(ex.subrange(0, total as int) =~= ex);
}

/// The merge keeps every base event, in place, at the front.
pub proof fn lemma_merge_keeps_base(base: Seq<PmuEventView>, extra: Seq<PmuEventView>)
    ensures
        merge_by_name(base, extra).len() >= base.len(),
        merge_by_name(base, extra).subrange(0, base.len() as int) == base,
    decreases extra.len(),
{
    if extra.len() > 0 {
        lemma_merge_keeps_base(base, extra.drop_last());
        let m = merge_by_name(base, extra.drop_last());
        assert(m.push(extra.last()).subrange(0, base.len() as int) =~= m.subrange(0, base.len() as int));
    }
}

/// Every name of the extra events is among the merged events.
pub proof fn lemma_merge_covers(base: Seq<PmuEventView>, extra: Seq<PmuEventView>, i: int)
    requires
        0 <= i < extra.len(),
    ensures
        has_event_named(merge_by_name(base, extra), extra[i].name),
    decreases extra.len(),
{
    let m = merge_by_name(base, extra.drop_last());
    if i < extra.len() - 1 {
        lemma_merge_covers(base, extra.drop_last(), i);
        assert(extra.drop_last()[i] == extra[i]);
        if !has_event_named(m, extra.last().name) {
            let t = choose|t: int| 0 <= t < m.len() && #[trigger] m[t].name == extra[i].name;
            assert(m.push(extra.last())[t] == m[t]);
        }
    } else {
        if !has_event_named(m, extra.last().name) {
            assert(m.push(extra.last())[m.len() as int] == extra.last());
        }
    }
}

/// No two events of a list share a name.
pub open spec fn names_distinct(s: Seq<PmuEventView>) -> bool {
    forall|i: int, j: int| 0 <= i < j < s.len() ==> s[i].name != s[j].name
}

/// Merging into events of distinct names gives events of distinct names.
pub proof fn lemma_merge_distinct(base: Seq<PmuEventView>, extra: Seq<PmuEventView>)
    requires
        names_distinct(base),
    ensures
        names_distinct(merge_by_name(base, extra)),
    decreases extra.len(),
{
    if extra.len() > 0 {
        lemma_merge_distinct(base, extra.drop_last());
        let m = merge_by_name(base, extra.drop_last());
        if !has_event_named(m, extra.last().name) {
            let r = m.push(extra.last());
            assert forall|i: int, j: int| 0 <= i < j < r.len() implies r[i].name != r[j].name by {
                if j == m.len() {
                    assert(r[i] == m[i]);
                } else {
                    assert(r[i] == m[i] && r[j] == m[j]);
                }
            }
        }
    }
}

pub open spec fn generic_events_spec() -> Seq<PmuEventView> {
    seq![
        table_event("cpu-cycles"@, seq!["cycles"@], "Total cycles"@, "Hardware event"@),
        table_event("instructions"@, seq![], "Retired instructions"@, "Hardware event"@),
        table_event("cache-references"@, seq![], "Cache accesses"@, "Hardware event"@),
        table_event("cache-misses"@, seq![], "Cache misses"@, "Hardware event"@),
        table_event("branch-instructions"@, seq!["branches"@], "Retired branch instructions"@, "Hardware event"@),
        table_event("branch-misses"@, seq![], "Mispredicted branch instructions"@, "Hardware event"@),
        table_event("bus-cycles"@, seq![], "Bus cycles"@, "Hardware event"@),
        table_event("ref-cycles"@, seq![], "Total cycles (independent of frequency scaling)"@, "Hardware event"@),
    ]
}

/// The events that every architecture has: the generic hardware events.
pub fn get_generic_events() -> (r: Vec<PmuEvent>)
    ensures
        events_view(r@) == generic_events_spec(),
{
    let mut v: Vec<PmuEvent> = Vec::new();
    v.push(PmuEvent::new("cpu-cycles", "Total cycles").with_alias("cycles").with_category("Hardware event"));
    v.push(PmuEvent::new("instructions", "Retired instructions").with_category("Hardware event"));
    v.push(PmuEvent::new("cache-references", "Cache accesses").with_category("Hardware event"));
    v.push(PmuEvent::new("cache-misses", "Cache misses").with_category("Hardware event"));
    v.push(PmuEvent::new("branch-instructions", "Retired branch instructions").with_alias("branches").with_category("Hardware event"));
    v.push(PmuEvent::new("branch-misses", "Mispredicted branch instructions").with_category("Hardware event"));
    v.push(PmuEvent::new("bus-cycles", "Bus cycles").with_category("Hardware event"));
    v.push(PmuEvent::new("ref-cycles", "Total cycles (independent of frequency scaling)").with_category("Hardware event"));
    assert(events_view(v@) =~= generic_events_spec());
    v
}

/// The events of an architecture merged with the given sysfs events.
pub open spec fn arch_events_spec(arch: Arch, sysfs: Seq<PmuEventView>) -> Seq<PmuEventView> {
    match arch {
        Arch::X86_64 => merge_by_name(x86_64::x86_64_table_spec(), sysfs),
        Arch::Arm64 => merge_by_name(arm64::arm64_table_spec(), sysfs),
        Arch::RiscV64 => merge_by_name(riscv64::riscv64_table_spec(), sysfs),
        Arch::Unknown => generic_events_spec(),
    }
}

/// The events of an architecture, merged by name with the events that
/// sysfs lists for the `cpu` device; an unknown architecture has the
/// generic events alone.
pub fn get_arch_events(arch: Arch, sysfs_events: Vec<PmuEvent>) -> (r: Vec<PmuEvent>)
    ensures
        events_view(r@) == arch_events_spec(arch, events_view(sysfs_events@)),
{
    match arch {
        Arch::X86_64 => x86_64::get_events(sysfs_events),
        Arch::Arm64 => arm64::get_events(sysfs_events),
        Arch::RiscV64 => riscv64::get_events(sysfs_events),
        Arch::Unknown => get_generic_events(),
    }
}

/// Appends `more` to `events`.
pub fn append_events(events: &mut Vec<PmuEvent>, more: Vec<PmuEvent>)
    ensures
        events_view(final(events)@) == events_view(old(events)@) + events_view(more@),
{
    let ghost m0 = more@;
    let mut more = more;
    events.append(&mut more);
    assert(events_view(events@) =~= events_view(old(events)@) + events_view(m0));
}

} // verus!
