//! Configuration sections and their defaults, and the `env:` references
//! that configuration strings may hold.  Reading the TOML file and the
//! process environment happens outside the library.
use vstd::prelude::*;
use crate::channels::{lookup, lookup_s, table_view};
use crate::message::{ChannelKind, ostr};
use crate::text::{chars_of, extend_range, string_of, starts_with_chars, strs_view};

verus! {

/// HTTP gateway configuration.
#[derive(Debug, Clone)]
pub struct GatewayConfig {
    /// Bind address (e.g., "127.0.0.1:3777").
    pub bind: String,
    /// Optional bearer token for API authentication.
    pub auth_token: Option<String>,
}

impl GatewayConfig {
    /// The default bind address.
    pub fn default_bind() -> (r: String)
        ensures
            r@ == "127.0.0.1:3777"@,
    {
        "127.0.0.1:3777".to_owned()
    }

    /// Bind to the default address, no authentication.
    pub fn default() -> (r: Self)
        ensures
            r.bind@ == "127.0.0.1:3777"@,
            r.auth_token is None,
    {
        GatewayConfig { bind: Self::default_bind(), auth_token: None }
    }
}

/// Agent configuration (the sampling temperature is kept by the caller).
#[derive(Debug, Clone)]
pub struct AgentConfig {
    /// Unique agent identifier.
    pub id: String,
    /// Human-readable display name.
    pub name: String,
    /// Model identifier (e.g., "gpt-4o").
    pub model: String,
    /// Provider ID to use for this agent.
    pub provider: String,
    /// Inline system prompt.
    pub system_prompt: Option<String>,
    /// Path to a file containing the system prompt.
    pub system_prompt_file: Option<String>,
    /// Maximum tokens per response.
    pub max_tokens: Option<u32>,
    /// Skills directory path.
    pub skills_dir: Option<String>,
    /// Memory directory path.
    pub memory_dir: Option<String>,
}

/// LLM provider kinds.
#[derive(Debug, Clone, Copy, PartialEq, Eq, Structural)]
pub enum ProviderKind {
    /// OpenAI-compatible API.
    OpenAI,
    /// Anthropic Messages API.
    Anthropic,
}

/// LLM provider configuration.
#[derive(Debug, Clone)]
pub struct ProviderConfig {
    /// Unique provider identifier.
    pub id: String,
    /// Provider API type.
    pub kind: ProviderKind,
    /// API base URL.
    pub base_url: String,
    /// API key (supports `env:VAR_NAME` prefix).
    pub api_key: String,
    /// Available model names for this provider.
    pub models: Vec<String>,
}

/// Memory system configuration.
#[derive(Debug, Clone)]
pub struct MemoryConfig {
    /// Whether the memory system is enabled.
    pub enabled: bool,
    /// Memory storage directory.
    pub path: String,
}

impl MemoryConfig {
    /// Enabled, stored under `./data/memory`.
    pub fn default() -> (r: Self)
        ensures
            r.enabled,
            r.path@ == "./data/memory"@,
    {
        MemoryConfig { enabled: true, path: "./data/memory".to_owned() }
    }
}

/// Skills system configuration.
#[derive(Debug, Clone)]
pub struct SkillsConfig {
    /// Whether the skills system is enabled.
    pub enabled: bool,
    /// Skills directory path.
    pub path: String,
}

impl SkillsConfig {
    /// Enabled, stored under `./data/skills`.
    pub fn default() -> (r: Self)
        ensures
            r.enabled,
            r.path@ == "./data/skills"@,
    {
        SkillsConfig { enabled: true, path: "./data/skills".to_owned() }
    }
}

/// Evolution system configuration.
#[derive(Debug, Clone, Copy, PartialEq, Eq, Structural)]
pub struct EvolutionConfig {
    /// Whether the evolution system is enabled.
    pub enabled: bool,
    /// Number of conversation turns between memory reviews.
    pub memory_nudge_interval: u32,
    /// Number of tool invocations between skill reviews.
    pub skill_nudge_interval: u32,
    /// Hours between curator runs.
    pub curator_interval_hours: u32,
}

impl EvolutionConfig {
    /// Enabled; reviews every 10 turns / 10 tool calls; curator weekly.
    pub fn default() -> (r: Self)
        ensures
            r == (EvolutionConfig {
                enabled: true,
                memory_nudge_interval: 10,
                skill_nudge_interval: 10,
                curator_interval_hours: 168,
            }),
    {
        EvolutionConfig { enabled: true, memory_nudge_interval: 10, skill_nudge_interval: 10, curator_interval_hours: 168 }
    }
}

/// Tools configuration: which tools are on, and the security policy.
#[derive(Debug, Clone)]
pub struct ToolsConfig {
    /// Enable the bash/shell execution tool.
    pub bash: bool,
    /// Enable filesystem tools.
    pub filesystem: bool,
    /// Enable web search tool.
    pub web_search: bool,
    /// Dangerous command patterns blocked by the bash tool (case-insensitive substrings).
    pub bash_dangerous_commands: Vec<String>,
    /// Directories filesystem tools may access.
    pub allowed_paths: Vec<String>,
    /// Reject raw paths containing `..`.
    pub deny_path_traversal: bool,
}

/// The dangerous command patterns blocked by default.
pub open spec fn default_dangerous_s() -> Seq<Seq<char>> {
    seq![
        "rm -rf /"@,
        "rm -rf /*"@,
        "rm -rf ~"@,
        ":(){ :|:& };:"@,
        "fork bomb"@,
        "dd if=/dev/zero"@,
        "dd if=/dev/random"@,
        "shred "@,
        "mv /* /dev/null"@,
        "format c:"@,
        "format d:"@,
        "format /"@,
        "del /f"@,
        "del /s"@,
        "rmdir /s"@,
        "bootrec"@,
        "vssadmin delete"@,
        "reg delete"@,
        "shutdown /s"@,
        "shutdown /r"@,
        "Remove-Item"@,
        "diskpart"@,
    ]
}

/// A list of owned strings from literals.
fn owned_list(items: &[&str]) -> (r: Vec<String>)
    ensures
        strs_view(r@) == items@.map_values(|s: &str| s@),
{
    let mut out: Vec<String> = Vec::new();
    let mut i: usize = 0;
    while i < items.len()
        invariant
            i <= items@.len(),
            out@.len() == i,
            forall|k: int| 0 <= k < i ==> (#[trigger] out@[k])@ == items@[k]@,
        decreases items.len() - i,
    {
        out.push(items[i].to_owned());
        i = i + 1;
    }
    assert(strs_view(out@) =~= items@.map_values(|s: &str| s@));
    out
}

impl ToolsConfig {
    /// The dangerous command patterns blocked by default: recursive deletes
    /// of the root or home, fork bombs, disk wipes and formats, forced
    /// deletes, boot record and restore point removal, registry deletes,
    /// shutdowns, `Remove-Item` and `diskpart`.
    pub fn default_dangerous_commands() -> (r: Vec<String>)
        ensures
            strs_view(r@) == default_dangerous_s(),
    {
        let items: [&str; 22] = [
            "rm -rf /",
            "rm -rf /*",
            "rm -rf ~",
            ":(){ :|:& };:",
            "fork bomb",
            "dd if=/dev/zero",
            "dd if=/dev/random",
            "shred ",
            "mv /* /dev/null",
            "format c:",
            "format d:",
            "format /",
            "del /f",
            "del /s",
            "rmdir /s",
            "bootrec",
            "vssadmin delete",
            "reg delete",
            "shutdown /s",
            "shutdown /r",
            "Remove-Item",
            "diskpart",
        ];
        let r = owned_list(items.as_slice());
        assert(items@.map_values(|s: &str| s@) =~= default_dangerous_s());
        r
    }

    /// The directories allowed by default: the working directory.
    pub fn default_allowed_paths() -> (r: Vec<String>)
        ensures
            strs_view(r@) == seq!["."@],
    {
        let mut v: Vec<String> = Vec::new();
        v.push(".".to_owned());
        assert(strs_view(v@) =~= seq!["."@]);
        v
    }

    /// All tools on, the default blocked commands, the working directory
    /// allowed, path traversal denied.
    pub fn default() -> (r: Self)
        ensures
            r.bash && r.filesystem && r.web_search && r.deny_path_traversal,
            strs_view(r.bash_dangerous_commands@) == default_dangerous_s(),
            strs_view(r.allowed_paths@) == seq!["."@],
    {
        ToolsConfig {
            bash: true,
            filesystem: true,
            web_search: true,
            bash_dangerous_commands: Self::default_dangerous_commands(),
            allowed_paths: Self::default_allowed_paths(),
            deny_path_traversal: true,
        }
    }
}

/// The variable an `env:NAME` reference names.
pub open spec fn env_ref_s(value: Seq<char>) -> Option<Seq<char>> {
    if value.len() >= 4 && value.take(4) == "env:"@ {
        Some(value.skip(4))
    } else {
        None
    }
}

/// The variable an `env:NAME` value refers to, if it is one.
pub fn env_ref(value: &str) -> (r: Option<String>)
    ensures
        match r {
            Some(n) => env_ref_s(value@) == Some(n@),
            None => env_ref_s(value@) is None,
        },
{
    let v = chars_of(value);
    let p = chars_of("env:");
    proof {
        reveal_strlit("env:");
    }
    if v.len() >= 4 && starts_with_chars(v.as_slice(), p.as_slice()) {
        let mut name: Vec<char> = Vec::new();
        extend_range(&mut name, v.as_slice(), 4, v.len());
        assert(v@.subrange(0, 4) =~= v@.take(4));
        assert(name@ =~= value@.skip(4));
        Some(string_of(name.as_slice()))
    } else {
        assert(v@.len() >= 4 ==> v@.subrange(0, 4) =~= v@.take(4));
        None
    }
}

/// A configuration string with an `env:NAME` reference resolved: the
/// variable's value, or empty when it is not set.
pub open spec fn resolve_env_s(value: Seq<char>, env: Seq<(Seq<char>, Seq<char>)>) -> Seq<char> {
    match env_ref_s(value) {
        Some(name) => match lookup_s(env, name) {
            Some(v) => v,
            None => Seq::empty(),
        },
        None => value,
    }
}

/// Resolve an `env:NAME` reference against a table of environment variables.
pub fn resolve_env_value(value: &str, env: &Vec<(String, String)>) -> (r: String)
    ensures
        r@ == resolve_env_s(value@, table_view(env@)),
{
    match env_ref(value) {
        Some(name) => match lookup(env, name.as_str()) {
            Some(v) => v.clone(),
            None => String::new(),
        },
        None => value.to_owned(),
    }
}


/// A channel's configuration: its ID and kind, the agent it talks to, and
/// its string settings (table entries whose value is a string).
#[derive(Debug, Clone)]
pub struct ChannelConfig {
    /// Unique channel identifier.
    pub id: String,
    /// Which platform the channel is.
    pub kind: ChannelKind,
    /// The agent that answers the channel.
    pub agent_id: String,
    /// String settings, e.g. `app_id`, `app_secret`.
    pub settings: Vec<(String, String)>,
}

/// The whole application configuration.
#[derive(Debug, Clone)]
pub struct AppConfig {
    /// HTTP gateway settings.
    pub gateway: GatewayConfig,
    /// Agent definitions.
    pub agents: Vec<AgentConfig>,
    /// LLM provider definitions.
    pub providers: Vec<ProviderConfig>,
    /// Channel integrations.
    pub channels: Vec<ChannelConfig>,
    /// Memory system settings.
    pub memory: MemoryConfig,
    /// Skills system settings.
    pub skills: SkillsConfig,
    /// Self-improvement settings.
    pub evolution: EvolutionConfig,
    /// Tool settings.
    pub tools: ToolsConfig,
}

/// A string resolved against the environment.
pub open spec fn rs(s: String, env: Seq<(Seq<char>, Seq<char>)>) -> Seq<char> {
    resolve_env_s(s@, env)
}

/// An optional string resolved against the environment.
pub open spec fn ors(o: Option<String>, env: Seq<(Seq<char>, Seq<char>)>) -> Option<Seq<char>> {
    match o {
        Some(s) => Some(rs(s, env)),
        None => None,
    }
}

/// `b` is provider `a` with every string resolved.
pub open spec fn provider_resolved(a: ProviderConfig, b: ProviderConfig, env: Seq<(Seq<char>, Seq<char>)>) -> bool {
    &&& b.id@ == rs(a.id, env)
    &&& b.kind == a.kind
    &&& b.base_url@ == rs(a.base_url, env)
    &&& b.api_key@ == rs(a.api_key, env)
    &&& b.models@.len() == a.models@.len()
    &&& forall|i: int| 0 <= i < a.models@.len() ==> (#[trigger] b.models@[i])@ == rs(a.models@[i], env)
}

/// `b` is agent `a` with its ID, name, model, provider and prompts resolved.
pub open spec fn agent_resolved(a: AgentConfig, b: AgentConfig, env: Seq<(Seq<char>, Seq<char>)>) -> bool {
    &&& b.id@ == rs(a.id, env)
    &&& b.name@ == rs(a.name, env)
    &&& b.model@ == rs(a.model, env)
    &&& b.provider@ == rs(a.provider, env)
    &&& ostr(b.system_prompt) == ors(a.system_prompt, env)
    &&& ostr(b.system_prompt_file) == ors(a.system_prompt_file, env)
    &&& b.max_tokens == a.max_tokens
    &&& ostr(b.skills_dir) == ostr(a.skills_dir)
    &&& ostr(b.memory_dir) == ostr(a.memory_dir)
}

/// `b` is channel `a` with its ID, agent and settings resolved.
pub open spec fn channel_resolved(a: ChannelConfig, b: ChannelConfig, env: Seq<(Seq<char>, Seq<char>)>) -> bool {
    &&& b.id@ == rs(a.id, env)
    &&& b.kind == a.kind
    &&& b.agent_id@ == rs(a.agent_id, env)
    &&& b.settings@.len() == a.settings@.len()
    &&& forall|i: int|
        0 <= i < a.settings@.len() ==> (#[trigger] b.settings@[i]).0@ == a.settings@[i].0@ && b.settings@[i].1@ == rs(
            a.settings@[i].1,
            env,
        )
}

fn resolve_string(s: &mut String, env: &Vec<(String, String)>)
    ensures
        final(s)@ == resolve_env_s(old(s)@, table_view(env@)),
{
    *s = resolve_env_value(s.as_str(), env);
}

fn resolve_option(o: &mut Option<String>, env: &Vec<(String, String)>)
    ensures
        ostr(*final(o)) == ors(*old(o), table_view(env@)),
{
    match o {
        Some(s) => {
            resolve_string(s, env);
        },
        None => {},
    }
}

fn resolve_strings(v: &mut Vec<String>, env: &Vec<(String, String)>)
    ensures
        final(v)@.len() == old(v)@.len(),
        forall|i: int| 0 <= i < old(v)@.len() ==> (#[trigger] final(v)@[i])@ == rs(old(v)@[i], table_view(env@)),
{
    let mut i: usize = 0;
    while i < v.len()
        invariant
            i <= v@.len(),
            v@.len() == old(v)@.len(),
            forall|k: int| 0 <= k < i ==> (#[trigger] v@[k])@ == rs(old(v)@[k], table_view(env@)),
            forall|k: int| i <= k < v@.len() ==> v@[k] == old(v)@[k],
        decreases v.len() - i,
    {
        let r = resolve_env_value(v[i].as_str(), env);
        v.set(i, r);
        i = i + 1;
    }
}

fn resolve_provider(p: &mut ProviderConfig, env: &Vec<(String, String)>)
    ensures
        provider_resolved(*old(p), *final(p), table_view(env@)),
{
    resolve_string(&mut p.id, env);
    resolve_string(&mut p.base_url, env);
    resolve_string(&mut p.api_key, env);
    resolve_strings(&mut p.models, env);
}

fn resolve_agent(a: &mut AgentConfig, env: &Vec<(String, String)>)
    ensures
        agent_resolved(*old(a), *final(a), table_view(env@)),
{
    resolve_string(&mut a.id, env);
    resolve_string(&mut a.name, env);
    resolve_string(&mut a.model, env);
    resolve_string(&mut a.provider, env);
    resolve_option(&mut a.system_prompt, env);
    resolve_option(&mut a.system_prompt_file, env);
}

fn resolve_channel(c: &mut ChannelConfig, env: &Vec<(String, String)>)
    ensures
        channel_resolved(*old(c), *final(c), table_view(env@)),
{
    resolve_string(&mut c.id, env);
    resolve_string(&mut c.agent_id, env);
    let mut i: usize = 0;
    while i < c.settings.len()
        invariant
            i <= c.settings@.len(),
            c.settings@.len() == old(c).settings@.len(),
            forall|k: int|
                0 <= k < i ==> (#[trigger] c.settings@[k]).0@ == old(c).settings@[k].0@ && c.settings@[k].1@ == rs(
                    old(c).settings@[k].1,
                    table_view(env@),
                ),
            forall|k: int| i <= k < c.settings@.len() ==> c.settings@[k] == old(c).settings@[k],
            c.id@ == rs(old(c).id, table_view(env@)),
            c.agent_id@ == rs(old(c).agent_id, table_view(env@)),
            c.kind == old(c).kind,
        decreases c.settings.len() - i,
    {
        let key = c.settings[i].0.clone();
        let value = resolve_env_value(c.settings[i].1.as_str(), env);
        c.settings.set(i, (key, value));
        i = i + 1;
    }
}

impl AppConfig {
    /// The default configuration: default gateway, memory, skills,
    /// evolution and tools; no agents, providers or channels.
    pub fn default() -> (r: Self)
        ensures
            r.gateway.bind@ == "127.0.0.1:3777"@,
            r.gateway.auth_token is None,
            r.agents@.len() == 0,
            r.providers@.len() == 0,
            r.channels@.len() == 0,
            r.evolution == (EvolutionConfig {
                enabled: true,
                memory_nudge_interval: 10,
                skill_nudge_interval: 10,
                curator_interval_hours: 168,
            }),
            r.memory.enabled,
            r.memory.path@ == "./data/memory"@,
            r.skills.enabled,
            r.skills.path@ == "./data/skills"@,
            r.tools.bash && r.tools.filesystem && r.tools.web_search && r.tools.deny_path_traversal,
            strs_view(r.tools.bash_dangerous_commands@) == default_dangerous_s(),
            strs_view(r.tools.allowed_paths@) == seq!["."@],
    {
        AppConfig {
            gateway: GatewayConfig::default(),
            agents: Vec::new(),
            providers: Vec::new(),
            channels: Vec::new(),
            memory: MemoryConfig::default(),
            skills: SkillsConfig::default(),
            evolution: EvolutionConfig::default(),
            tools: ToolsConfig::default(),
        }
    }

    /// Apply the `MAVIS_GATEWAY_BIND`, `MAVIS_GATEWAY_AUTH_TOKEN`,
    /// `MAVIS_MEMORY_PATH` and `MAVIS_SKILLS_PATH` variables that are set.
    pub fn apply_env_overrides(&mut self, env: &Vec<(String, String)>)
        ensures
            final(self).gateway.bind@ == match lookup_s(table_view(env@), "MAVIS_GATEWAY_BIND"@) {
                Some(v) => v,
                None => old(self).gateway.bind@,
            },
            ostr(final(self).gateway.auth_token) == match lookup_s(table_view(env@), "MAVIS_GATEWAY_AUTH_TOKEN"@) {
                Some(v) => Some(v),
                None => ostr(old(self).gateway.auth_token),
            },
            final(self).memory.path@ == match lookup_s(table_view(env@), "MAVIS_MEMORY_PATH"@) {
                Some(v) => v,
                None => old(self).memory.path@,
            },
            final(self).skills.path@ == match lookup_s(table_view(env@), "MAVIS_SKILLS_PATH"@) {
                Some(v) => v,
                None => old(self).skills.path@,
            },
            final(self).agents == old(self).agents,
            final(self).providers == old(self).providers,
            final(self).channels == old(self).channels,
    {
        if let Some(v) = lookup(env, "MAVIS_GATEWAY_BIND") {
            self.gateway.bind = v.clone();
        }
        if let Some(v) = lookup(env, "MAVIS_GATEWAY_AUTH_TOKEN") {
            self.gateway.auth_token = Some(v.clone());
        }
        if let Some(v) = lookup(env, "MAVIS_MEMORY_PATH") {
            self.memory.path = v.clone();
        }
        if let Some(v) = lookup(env, "MAVIS_SKILLS_PATH") {
            self.skills.path = v.clone();
        }
    }

    /// Resolve `env:NAME` references in every string of the configuration:
    /// the gateway's bind address and token, every provider's ID, URL, key
    /// and models, every agent's ID, name, model, provider and prompts,
    /// every channel's ID, agent and settings, and the memory and skills
    /// paths.  An unset variable resolves to the empty string.
    pub fn resolve_env_refs(&mut self, env: &Vec<(String, String)>)
        ensures
            final(self).gateway.bind@ == rs(old(self).gateway.bind, table_view(env@)),
            ostr(final(self).gateway.auth_token) == ors(old(self).gateway.auth_token, table_view(env@)),
            final(self).providers@.len() == old(self).providers@.len(),
            forall|i: int|
                0 <= i < old(self).providers@.len() ==> provider_resolved(
                    old(self).providers@[i],
                    #[trigger] final(self).providers@[i],
                    table_view(env@),
                ),
            final(self).agents@.len() == old(self).agents@.len(),
            forall|i: int|
                0 <= i < old(self).agents@.len() ==> agent_resolved(
                    old(self).agents@[i],
                    #[trigger] final(self).agents@[i],
                    table_view(env@),
                ),
            final(self).channels@.len() == old(self).channels@.len(),
            forall|i: int|
                0 <= i < old(self).channels@.len() ==> channel_resolved(
                    old(self).channels@[i],
                    #[trigger] final(self).channels@[i],
                    table_view(env@),
                ),
            final(self).memory.path@ == rs(old(self).memory.path, table_view(env@)),
            final(self).skills.path@ == rs(old(self).skills.path, table_view(env@)),
            final(self).memory.enabled == old(self).memory.enabled,
            final(self).skills.enabled == old(self).skills.enabled,
            final(self).evolution == old(self).evolution,
    {
        resolve_string(&mut self.gateway.bind, env);
        resolve_option(&mut self.gateway.auth_token, env);
        let mut ps: Vec<ProviderConfig> = Vec::new();
        std::mem::swap(&mut ps, &mut self.providers);
        let ghost ops = ps@;
        let mut done: Vec<ProviderConfig> = Vec::new();
        while ps.len() > 0
            invariant
                done@.len() + ps@.len() == ops.len(),
                ps@ == ops.skip(done@.len() as int),
                forall|k: int| 0 <= k < done@.len() ==> provider_resolved(ops[k], #[trigger] done@[k], table_view(env@)),
            decreases ps.len(),
        {
            let mut p = ps.remove(0);
            assert(p == ops[done@.len() as int]);
            resolve_provider(&mut p, env);
            done.push(p);
            assert(ps@ =~= ops.skip(done@.len() as int));
        }
        self.providers = done;
        let mut ags: Vec<AgentConfig> = Vec::new();
        std::mem::swap(&mut ags, &mut self.agents);
        let ghost oags = ags@;
        let mut done_a: Vec<AgentConfig> = Vec::new();
        while ags.len() > 0
            invariant
                done_a@.len() + ags@.len() == oags.len(),
                ags@ == oags.skip(done_a@.len() as int),
                forall|k: int| 0 <= k < done_a@.len() ==> agent_resolved(oags[k], #[trigger] done_a@[k], table_view(env@)),
            decreases ags.len(),
        {
            let mut a = ags.remove(0);
            assert(a == oags[done_a@.len() as int]);
            resolve_agent(&mut a, env);
            done_a.push(a);
            assert(ags@ =~= oags.skip(done_a@.len() as int));
        }
        self.agents = done_a;
        let mut chs: Vec<ChannelConfig> = Vec::new();
        std::mem::swap(&mut chs, &mut self.channels);
        let ghost ochs = chs@;
        let mut done_c: Vec<ChannelConfig> = Vec::new();
        while chs.len() > 0
            invariant
                done_c@.len() + chs@.len() == ochs.len(),
                chs@ == ochs.skip(done_c@.len() as int),
                forall|k: int| 0 <= k < done_c@.len() ==> channel_resolved(ochs[k], #[trigger] done_c@[k], table_view(env@)),
            decreases chs.len(),
        {
            let mut c = chs.remove(0);
            assert(c == ochs[done_c@.len() as int]);
            resolve_channel(&mut c, env);
            done_c.push(c);
            assert(chs@ =~= ochs.skip(done_c@.len() as int));
        }
        self.channels = done_c;
        resolve_string(&mut self.memory.path, env);
        resolve_string(&mut self.skills.path, env);
    }
}

} // verus!
