//! The `.nano` agent manifest: what an agent is, which model it talks to,
//! which resources it may consume and which capabilities it holds.
use vstd::prelude::*;
use crate::text::{chars_of, parse_unsigned, parse_unsigned_exec, sub_chars, trim, trim_chars};

verus! {

/// One member of a multi-agent fleet.
#[derive(Debug)]
pub struct AgentSpec {
    pub name: String,
    pub goal: String,
    pub tools: Vec<String>,
}

/// A complete agent (or fleet) manifest.
#[derive(Debug)]
pub struct AgentManifest {
    pub name: Option<String>,
    pub model: ModelConfig,
    pub resources: ResourceLimits,
    pub permissions: Permissions,
    pub tools: Option<Vec<String>>,
    pub goal: Option<String>,
    pub mcp_servers: Option<Vec<McpServerConfig>>,
    pub agents: Option<Vec<AgentSpec>>,
    pub binary: Option<String>,
    pub token: Option<String>,
}

/// An MCP server launched over stdio for the agent.
#[derive(Debug)]
pub struct McpServerConfig {
    pub name: String,
    pub command: String,
    pub args: Vec<String>,
}

/// Which language model backs the agent.
#[derive(Debug)]
pub struct ModelConfig {
    pub path: Option<String>,
    pub context_window: u32,
    pub provider: Option<String>,
    pub api_url: Option<String>,
    pub api_key: Option<String>,
    pub model_name: Option<String>,
}

/// Sandbox resource limits.
#[derive(Debug)]
pub struct ResourceLimits {
    pub memory: String,
    pub max_steps: u32,
}

/// Capabilities granted to the agent.
#[derive(Debug)]
pub struct Permissions {
    pub fs_read: Option<Vec<String>>,
    pub fs_write: Option<Vec<String>>,
    pub network: bool,
}

// ───────────────────────── copying ─────────────────────────

pub fn copy_opt_string(s: &Option<String>) -> (r: Option<String>)
    ensures
        r == *s,
{
    match s {
        Some(x) => Some(x.clone()),
        None => None,
    }
}

pub fn copy_strings(v: &Vec<String>) -> (r: Vec<String>)
    ensures
        r@ == v@,
{
    let mut r: Vec<String> = Vec::new();
    let mut i: usize = 0;
    while i < v.len()
        invariant
            i <= v@.len(),
            r@ == v@.take(i as int),
        decreases v@.len() - i,
    {
        r.push(v[i].clone());
        assert(v@.take(i + 1) =~= v@.take(i as int).push(v@[i as int]));
        i = i + 1;
    }
    assert(v@.take(v@.len() as int) =~= v@);
    r
}

pub fn copy_opt_strings(v: &Option<Vec<String>>) -> (r: Option<Vec<String>>)
    ensures
        r matches Some(x) ==> v matches Some(y) && x@ == y@,
        r is None <==> v is None,
{
    match v {
        Some(x) => Some(copy_strings(x)),
        None => None,
    }
}

impl AgentSpec {
    pub fn copy(&self) -> (r: Self)
        ensures
            r.name == self.name,
            r.goal == self.goal,
            r.tools@ == self.tools@,
    {
        AgentSpec { name: self.name.clone(), goal: self.goal.clone(), tools: copy_strings(&self.tools) }
    }
}

impl McpServerConfig {
    pub fn copy(&self) -> (r: Self)
        ensures
            r.name == self.name,
            r.command == self.command,
            r.args@ == self.args@,
    {
        McpServerConfig {
            name: self.name.clone(),
            command: self.command.clone(),
            args: copy_strings(&self.args),
        }
    }
}

impl ModelConfig {
    pub fn copy(&self) -> (r: Self)
        ensures
            r == *self,
    {
        ModelConfig {
            path: copy_opt_string(&self.path),
            context_window: self.context_window,
            provider: copy_opt_string(&self.provider),
            api_url: copy_opt_string(&self.api_url),
            api_key: copy_opt_string(&self.api_key),
            model_name: copy_opt_string(&self.model_name),
        }
    }
}

impl ResourceLimits {
    pub fn copy(&self) -> (r: Self)
        ensures
            r == *self,
    {
        ResourceLimits { memory: self.memory.clone(), max_steps: self.max_steps }
    }
}

impl Permissions {
    /// Whether two permission sets grant the same capabilities.
    pub open spec fn same_as(self, other: Permissions) -> bool {
        &&& (self.fs_read is Some <==> other.fs_read is Some)
        &&& (self.fs_read matches Some(a) ==> a@ == other.fs_read->0@)
        &&& (self.fs_write is Some <==> other.fs_write is Some)
        &&& (self.fs_write matches Some(a) ==> a@ == other.fs_write->0@)
        &&& self.network == other.network
    }

    pub fn copy(&self) -> (r: Self)
        ensures
            r.same_as(*self),
    {
        Permissions {
            fs_read: copy_opt_strings(&self.fs_read),
            fs_write: copy_opt_strings(&self.fs_write),
            network: self.network,
        }
    }
}

// ───────────────────────── resource limits ─────────────────────────

pub open spec fn kib() -> int {
    1024
}

pub open spec fn mib() -> int {
    1048576
}

pub open spec fn gib() -> int {
    1073741824
}

/// The trimmed text ends with the unit letter `u` (either case) followed by `B`/`b`.
pub open spec fn has_unit(t: Seq<char>, upper: char, lower: char) -> bool {
    t.len() >= 2 && (t[t.len() - 2] == upper || t[t.len() - 2] == lower) && (t[t.len() - 1] == 'B'
        || t[t.len() - 1] == 'b')
}

/// The count written in front of a unit: a `usize` literal, or 256 when the
/// text is not one.
pub open spec fn count_or_default(s: Seq<char>) -> int {
    match parse_unsigned(trim(s), usize::MAX as nat) {
        Some(v) => v as int,
        None => 256,
    }
}

/// The number of bytes a memory limit such as `"256MB"`, `"1gb"`, `"512KB"`
/// or `"128"` (megabytes) denotes. Units are matched without regard to case;
/// an unreadable count counts as 256.
pub open spec fn memory_limit_bytes(memory: Seq<char>) -> int {
    let t = trim(memory);
    if has_unit(t, 'G', 'g') {
        count_or_default(t.take(t.len() - 2)) * gib()
    } else if has_unit(t, 'M', 'm') {
        count_or_default(t.take(t.len() - 2)) * mib()
    } else if has_unit(t, 'K', 'k') {
        count_or_default(t.take(t.len() - 2)) * kib()
    } else {
        count_or_default(t) * mib()
    }
}

proof fn lemma_trim_unpadded(s: Seq<char>)
    requires
        s.len() > 0,
        !crate::text::is_white(s[0]),
        !crate::text::is_white(s.last()),
    ensures
        trim(s) == s,
{
    assert(crate::text::trim_start(s) == s);
    assert(crate::text::trim_end(s) == s);
}

proof fn lemma_count_with_unit(n: Seq<char>, v: nat, u: char, b: char)
    requires
        n.len() > 0,
        forall|i: int| 0 <= i < n.len() ==> '0' <= #[trigger] n[i] <= '9',
        parse_unsigned(n, usize::MAX as nat) == Some(v),
        u == 'K' || u == 'k' || u == 'M' || u == 'm' || u == 'G' || u == 'g',
        b == 'B' || b == 'b',
    ensures
        memory_limit_bytes(n + seq![u, b]) == v * (if u == 'K' || u == 'k' {
            1024int
        } else if u == 'M' || u == 'm' {
            1048576int
        } else {
            1073741824int
        }),
{
    let s = n + seq![u, b];
    assert(s[0] == n[0]);
    assert(s.last() == b);
    lemma_trim_unpadded(s);
    lemma_trim_unpadded(n);
    assert(s.take(s.len() - 2) =~= n);
    assert(s[s.len() - 2] == u && s[s.len() - 1] == b);
    assert(count_or_default(n) == v);
}

/// Memory limits read units without regard to case: a count `n` followed
/// by `KB`, `MB` or `GB`, in any mix of upper and lower case, is `n`
/// kibibytes, mebibytes or gibibytes; a count without a unit is mebibytes.
pub proof fn law_memory_units_any_case(n: Seq<char>, v: nat, b: char)
    requires
        n.len() > 0,
        forall|i: int| 0 <= i < n.len() ==> '0' <= #[trigger] n[i] <= '9',
        parse_unsigned(n, usize::MAX as nat) == Some(v),
        b == 'B' || b == 'b',
    ensures
        memory_limit_bytes(n) == v * 1048576,
        memory_limit_bytes(n + seq!['k', b]) == v * 1024,
        memory_limit_bytes(n + seq!['K', b]) == v * 1024,
        memory_limit_bytes(n + seq!['m', b]) == v * 1048576,
        memory_limit_bytes(n + seq!['M', b]) == v * 1048576,
        memory_limit_bytes(n + seq!['g', b]) == v * 1073741824,
        memory_limit_bytes(n + seq!['G', b]) == v * 1073741824,
{
    lemma_trim_unpadded(n);
    assert(n[n.len() - 1] == n.last());
    assert(!has_unit(n, 'G', 'g') && !has_unit(n, 'M', 'm') && !has_unit(n, 'K', 'k'));
    lemma_count_with_unit(n, v, 'k', b);
    lemma_count_with_unit(n, v, 'K', b);
    lemma_count_with_unit(n, v, 'm', b);
    lemma_count_with_unit(n, v, 'M', b);
    lemma_count_with_unit(n, v, 'g', b);
    lemma_count_with_unit(n, v, 'G', b);
}

fn has_unit_exec(t: &[char], upper: char, lower: char) -> (r: bool)
    ensures
        r == has_unit(t@, upper, lower),
{
    let n = t.len();
    n >= 2 && (t[n - 2] == upper || t[n - 2] == lower) && (t[n - 1] == 'B' || t[n - 1] == 'b')
}

fn count_or_default_exec(s: &[char]) -> (r: usize)
    ensures
        r as int == count_or_default(s@),
{
    let t = trim_chars(s);
    match parse_unsigned_exec(t.as_slice(), usize::MAX as u64) {
        Some(v) => v as usize,
        None => 256,
    }
}

impl ResourceLimits {
    /// The memory limit in bytes.
    pub fn memory_bytes(&self) -> (r: usize)
        requires
            memory_limit_bytes(self.memory@) <= usize::MAX,
        ensures
            r as int == memory_limit_bytes(self.memory@),
    {
        let v = chars_of(self.memory.as_str());
        let t = trim_chars(v.as_slice());
        let n = t.len();
        if has_unit_exec(t.as_slice(), 'G', 'g') {
            let c = count_or_default_exec(sub_chars(t.as_slice(), 0, n - 2).as_slice());
            assert(t@.subrange(0, n - 2) =~= t@.take(n - 2));
            assert(c * 1024 * 1024 * 1024 == c * gib());
            c * 1024 * 1024 * 1024
        } else if has_unit_exec(t.as_slice(), 'M', 'm') {
            let c = count_or_default_exec(sub_chars(t.as_slice(), 0, n - 2).as_slice());
            assert(t@.subrange(0, n - 2) =~= t@.take(n - 2));
            c * 1024 * 1024
        } else if has_unit_exec(t.as_slice(), 'K', 'k') {
            let c = count_or_default_exec(sub_chars(t.as_slice(), 0, n - 2).as_slice());
            assert(t@.subrange(0, n - 2) =~= t@.take(n - 2));
            c * 1024
        } else {
            let c = count_or_default_exec(t.as_slice());
            c * 1024 * 1024
        }
    }

    /// The memory limit in bytes, or `None` when it does not fit a `usize`.
    pub fn memory_bytes_checked(&self) -> (r: Option<usize>)
        ensures
            r is Some <==> memory_limit_bytes(self.memory@) <= usize::MAX,
            r matches Some(n) ==> n as int == memory_limit_bytes(self.memory@),
    {
        let v = chars_of(self.memory.as_str());
        let t = trim_chars(v.as_slice());
        let n = t.len();
        let (c, unit): (usize, usize) = if has_unit_exec(t.as_slice(), 'G', 'g') {
            assert(t@.subrange(0, n - 2) =~= t@.take(n - 2));
            (count_or_default_exec(sub_chars(t.as_slice(), 0, n - 2).as_slice()), 1073741824)
        } else if has_unit_exec(t.as_slice(), 'M', 'm') {
            assert(t@.subrange(0, n - 2) =~= t@.take(n - 2));
            (count_or_default_exec(sub_chars(t.as_slice(), 0, n - 2).as_slice()), 1048576)
        } else if has_unit_exec(t.as_slice(), 'K', 'k') {
            assert(t@.subrange(0, n - 2) =~= t@.take(n - 2));
            (count_or_default_exec(sub_chars(t.as_slice(), 0, n - 2).as_slice()), 1024)
        } else {
            (count_or_default_exec(t.as_slice()), 1048576)
        };
        assert(memory_limit_bytes(self.memory@) == c * unit);
        c.checked_mul(unit)
    }

    /// Wasm fuel granted to the sandbox: 100 000 units per agent step.
    pub fn fuel_budget(&self) -> (r: u64)
        ensures
            r == self.max_steps * 100_000,
    {
        (self.max_steps as u64) * 100_000
    }
}

// ───────────────────────── fleets ─────────────────────────

/// The name an agent runs under when its manifest gives none.
pub open spec fn default_agent_name() -> Seq<char> {
    "nanos-agent"@
}

/// The manifest's agent name, or `"nanos-agent"`.
pub open spec fn agent_name_of(name: Option<String>) -> Seq<char> {
    match name {
        Some(n) => n@,
        None => default_agent_name(),
    }
}

/// The two server lists name the same servers, launched by the same
/// commands with the same arguments, in the same order.
pub open spec fn same_servers(a: Seq<McpServerConfig>, b: Seq<McpServerConfig>) -> bool {
    &&& a.len() == b.len()
    &&& forall|i: int|
        0 <= i < b.len() ==> (#[trigger] a[i]).name@ == b[i].name@ && a[i].command@ == b[i].command@
            && a[i].args@ == b[i].args@
}

/// The two member lists hold the same names, goals and tools, in the same
/// order.
pub open spec fn same_specs(a: Seq<AgentSpec>, b: Seq<AgentSpec>) -> bool {
    &&& a.len() == b.len()
    &&& forall|i: int|
        0 <= i < b.len() ==> (#[trigger] a[i]).name@ == b[i].name@ && a[i].goal@ == b[i].goal@
            && a[i].tools@ == b[i].tools@
}

/// `m` is the manifest of fleet member `spec` derived from fleet manifest
/// `fleet`: the fleet's settings with the member's name, goal and tools.
pub open spec fn is_member_manifest(m: AgentManifest, fleet: AgentManifest, spec: AgentSpec) -> bool {
    &&& m.name == Some(spec.name)
    &&& m.goal == Some(spec.goal)
    &&& m.tools matches Some(t) && t@ == spec.tools@
    &&& m.model == fleet.model
    &&& m.resources == fleet.resources
    &&& m.permissions.same_as(fleet.permissions)
    &&& m.binary == fleet.binary
    &&& m.token == fleet.token
    &&& (m.mcp_servers is Some <==> fleet.mcp_servers is Some)
    &&& (m.mcp_servers matches Some(s) ==> same_servers(s@, fleet.mcp_servers->0@))
    &&& (m.agents is Some <==> fleet.agents is Some)
    &&& (m.agents matches Some(a) ==> same_specs(a@, fleet.agents->0@))
}

fn copy_servers(v: &Vec<McpServerConfig>) -> (r: Vec<McpServerConfig>)
    ensures
        r@.len() == v@.len(),
        forall|i: int|
            0 <= i < v@.len() ==> (#[trigger] r@[i]).name == v@[i].name && r@[i].command
                == v@[i].command && r@[i].args@ == v@[i].args@,
{
    let mut r: Vec<McpServerConfig> = Vec::new();
    let mut i: usize = 0;
    while i < v.len()
        invariant
            i <= v@.len(),
            r@.len() == i,
            forall|k: int|
                0 <= k < i ==> (#[trigger] r@[k]).name == v@[k].name && r@[k].command
                    == v@[k].command && r@[k].args@ == v@[k].args@,
        decreases v@.len() - i,
    {
        r.push(v[i].copy());
        i = i + 1;
    }
    r
}

fn copy_specs(v: &Vec<AgentSpec>) -> (r: Vec<AgentSpec>)
    ensures
        r@.len() == v@.len(),
        forall|i: int|
            0 <= i < v@.len() ==> (#[trigger] r@[i]).name == v@[i].name && r@[i].goal
                == v@[i].goal && r@[i].tools@ == v@[i].tools@,
{
    let mut r: Vec<AgentSpec> = Vec::new();
    let mut i: usize = 0;
    while i < v.len()
        invariant
            i <= v@.len(),
            r@.len() == i,
            forall|k: int|
                0 <= k < i ==> (#[trigger] r@[k]).name == v@[k].name && r@[k].goal == v@[k].goal
                    && r@[k].tools@ == v@[k].tools@,
        decreases v@.len() - i,
    {
        r.push(v[i].copy());
        i = i + 1;
    }
    r
}

impl AgentManifest {
    /// The name the agent runs under.
    pub fn agent_name(&self) -> (r: String)
        ensures
            r@ == agent_name_of(self.name),
    {
        match &self.name {
            Some(n) => n.clone(),
            None => String::from_str("nanos-agent"),
        }
    }

    /// The manifest for fleet member `spec`: this manifest with the member's
    /// name, goal and tool list.
    pub fn member_manifest(&self, spec: &AgentSpec) -> (r: AgentManifest)
        ensures
            is_member_manifest(r, *self, *spec),
    {
        AgentManifest {
            name: Some(spec.name.clone()),
            model: self.model.copy(),
            resources: self.resources.copy(),
            permissions: self.permissions.copy(),
            tools: Some(copy_strings(&spec.tools)),
            goal: Some(spec.goal.clone()),
            mcp_servers: match &self.mcp_servers {
                Some(s) => Some(copy_servers(s)),
                None => None,
            },
            agents: match &self.agents {
                Some(a) => Some(copy_specs(a)),
                None => None,
            },
            binary: copy_opt_string(&self.binary),
            token: copy_opt_string(&self.token),
        }
    }

    /// The manifests of all fleet members, in fleet order; `None` when the
    /// manifest lists no agents.
    pub fn member_manifests(&self) -> (r: Option<Vec<AgentManifest>>)
        ensures
            r is Some <==> self.agents is Some,
            r matches Some(ms) ==> ms@.len() == self.agents->0@.len() && forall|i: int|
                0 <= i < ms@.len() ==> is_member_manifest(
                    #[trigger] ms@[i],
                    *self,
                    self.agents->0@[i],
                ),
    {
        match &self.agents {
            None => None,
            Some(specs) => {
                let mut out: Vec<AgentManifest> = Vec::new();
                let mut i: usize = 0;
                while i < specs.len()
                    invariant
                        self.agents == Some(*specs),
                        i <= specs@.len(),
                        out@.len() == i,
                        forall|k: int|
                            0 <= k < i ==> is_member_manifest(#[trigger] out@[k], *self, specs@[k]),
                    decreases specs@.len() - i,
                {
                    out.push(self.member_manifest(&specs[i]));
                    i = i + 1;
                }
                Some(out)
            },
        }
    }
}

} // verus!
