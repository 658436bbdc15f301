//! What the agent is told about itself: who it is, where its backend is, how much memory a server
//! may use; and what it reports from that.

use crate::installer::ServerMetadata;
use crate::text::{begins_with, only_the_trailing_goes, prefixes_are_prefixes, starts_with, strip_trailing, texts, without_trailing};
use vstd::prelude::*;

verus! {

/// The settings of the agent.
#[derive(Debug)]
pub struct AgentConfig {
    /// The memory of a server, as the virtual machine takes it, such as `4G`.
    pub ram_mb: String,
    pub agent_id: String,
    pub backend_url: String,
}

/// The texts of an [`AgentConfig`].
pub struct ConfigTexts {
    pub ram_mb: Seq<char>,
    pub agent_id: Seq<char>,
    pub backend_url: Seq<char>,
}

impl View for AgentConfig {
    type V = ConfigTexts;

    open spec fn view(&self) -> ConfigTexts {
        ConfigTexts {
            ram_mb: self.ram_mb@,
            agent_id: self.agent_id@,
            backend_url: self.backend_url@,
        }
    }
}

impl Clone for AgentConfig {
    fn clone(&self) -> (r: Self)
        ensures
            r@ == self@,
    {
        AgentConfig {
            ram_mb: self.ram_mb.clone(),
            agent_id: self.agent_id.clone(),
            backend_url: self.backend_url.clone(),
        }
    }
}

impl Default for AgentConfig {
    fn default() -> (r: Self)
        ensures
            r@ == (ConfigTexts {
                ram_mb: Seq::empty(),
                agent_id: Seq::empty(),
                backend_url: Seq::empty(),
            }),
    {
        AgentConfig {
            ram_mb: String::new(),
            agent_id: String::new(),
            backend_url: String::new(),
        }
    }
}

/// The settings of an agent that was given none.
pub open spec fn fallback_config() -> ConfigTexts {
    ConfigTexts {
        ram_mb: "4G"@,
        agent_id: "test-agent"@,
        backend_url: "ws://127.0.0.1:8000"@,
    }
}

/// The address that an agent connects to.
pub open spec fn agent_address(backend_url: Seq<char>, agent_id: Seq<char>) -> Seq<char> {
    without_trailing(backend_url, '/') + "/ws/agent/"@ + agent_id
}

/// Whether a connection to an address is encrypted.
pub open spec fn is_encrypted(address: Seq<char>) -> bool {
    begins_with(address, "wss://"@)
}

impl AgentConfig {
    /// The settings at startup: those that were read, or the fallback where none could be.
    pub fn at_startup(read: Option<AgentConfig>) -> (r: AgentConfig)
        ensures
            r@ == (match read {
                Some(config) => config@,
                None => fallback_config(),
            }),
    {
        match read {
            Some(config) => config,
            None => AgentConfig {
                ram_mb: "4G".to_owned(),
                agent_id: "test-agent".to_owned(),
                backend_url: "ws://127.0.0.1:8000".to_owned(),
            },
        }
    }

    /// The address to connect to.
    pub fn address(&self) -> (r: String)
        ensures
            r@ == agent_address(self@.backend_url, self@.agent_id),
    {
        let mut r: String = strip_trailing(self.backend_url.as_str(), '/');
        r.append("/ws/agent/");
        r.append(self.agent_id.as_str());
        r
    }

    /// The arguments to launch a server with: its memory, where one is set, from the start and at
    /// most; and no window.
    pub fn launch_args(&self) -> (r: Vec<String>)
        ensures
            texts(r@) == launch_args_for(self@.ram_mb),
    {
        let mut r: Vec<String> = Vec::new();
        if !self.ram_mb.as_str().is_empty() {
            let mut least: String = "-Xms".to_owned();
            least.append(self.ram_mb.as_str());
            let mut most: String = "-Xmx".to_owned();
            most.append(self.ram_mb.as_str());
            r.push(least);
            r.push(most);
        }
        r.push("nogui".to_owned());
        assert(texts(r@) =~= launch_args_for(self@.ram_mb));
        r
    }
}

/// The arguments to launch a server with.
pub open spec fn launch_args_for(ram: Seq<char>) -> Seq<Seq<char>> {
    if ram.len() == 0 {
        seq!["nogui"@]
    } else {
        seq!["-Xms"@ + ram, "-Xmx"@ + ram, "nogui"@]
    }
}

/// Whether a connection to an address is encrypted.
pub fn encrypted(address: &str) -> (r: bool)
    ensures
        r == is_encrypted(address@),
{
    starts_with(address, "wss://")
}

/// What the agent tells the backend at regular intervals, but for the processor load.
#[derive(Debug)]
pub struct Heartbeat {
    pub type_: String,
    pub ram_usage: u64,
    pub ram_total: u64,
    pub server_status: String,
    pub config: AgentConfig,
    pub metadata: String,
}

/// The word for whether a server runs.
pub open spec fn status_word(running: bool) -> Seq<char> {
    if running {
        "ONLINE"@
    } else {
        "OFFLINE"@
    }
}

/// The word for whether a server runs.
pub fn status_text(running: bool) -> (r: String)
    ensures
        r@ == status_word(running),
{
    if running {
        "ONLINE".to_owned()
    } else {
        "OFFLINE".to_owned()
    }
}

/// The report on the agent and its server.
pub fn heartbeat(
    config: &AgentConfig,
    metadata: &ServerMetadata,
    running: bool,
    ram_usage: u64,
    ram_total: u64,
) -> (r: Heartbeat)
    ensures
        r.type_@ == "HEARTBEAT"@,
        r.ram_usage == ram_usage,
        r.ram_total == ram_total,
        r.server_status@ == status_word(running),
        r.config@ == config@,
        r.metadata@ == metadata@.server_type + " "@ + metadata@.version,
{
    let mut label: String = metadata.server_type.clone();
    label.append(" ");
    label.append(metadata.version.as_str());
    Heartbeat {
        type_: "HEARTBEAT".to_owned(),
        ram_usage,
        ram_total,
        server_status: status_text(running),
        config: config.clone(),
        metadata: label,
    }
}

/// Slashes at the end of the backend address change nothing.
pub proof fn trailing_slash_is_ignored(backend_url: Seq<char>, agent_id: Seq<char>)
    ensures
        agent_address(backend_url.push('/'), agent_id) == agent_address(backend_url, agent_id),
{
    assert(backend_url.push('/').drop_last() =~= backend_url);
}

proof fn lemma_without_trailing(s: Seq<char>, c: char)
    ensures
        without_trailing(s, c).len() > 0 ==> without_trailing(s, c).last() != c,
{
    only_the_trailing_goes(s, c);
}

/// The connection is encrypted exactly where the backend address, without slashes at its end, asks
/// for it.
pub proof fn encryption_follows_the_backend(backend_url: Seq<char>, agent_id: Seq<char>)
    ensures
        is_encrypted(agent_address(backend_url, agent_id)) <==> is_encrypted(
            without_trailing(backend_url, '/'),
        ),
{
    reveal_strlit("wss://");
    reveal_strlit("/ws/agent/");
    let scheme = "wss://"@;
    let base = without_trailing(backend_url, '/');
    let address = agent_address(backend_url, agent_id);
    lemma_without_trailing(backend_url, '/');
    assert forall|i: int| 0 <= i < base.len() implies address[i] == base[i] by {}
    if base.len() >= 6 {
        assert(address.take(6) =~= base.take(6));
    } else if begins_with(address, scheme) {
        assert(address.take(6)[0] == 'w');
        assert(address.take(6)[1] == 's');
        assert(address.take(6)[2] == 's');
        assert(address.take(6)[3] == ':');
        assert(address.take(6)[4] == '/');
        assert(address.take(6)[5] == '/');
        assert(address[base.len() as int] == '/');
        assert(address[(base.len() + 1) as int] == 'w');
        assert(false);
    }
}

/// The address of an agent ends with `/ws/agent/` and the whole identifier, and what stands before
/// that is the backend address without the slashes at its end.
pub proof fn address_names_backend_and_agent(backend_url: Seq<char>, agent_id: Seq<char>)
    ensures
        ({
            let address = agent_address(backend_url, agent_id);
            let n = address.len() - agent_id.len() - 10;
            &&& 0 <= n <= backend_url.len()
            &&& address.take(n) == backend_url.take(n)
            &&& n > 0 ==> backend_url[n - 1] != '/'
            &&& forall|i: int| n <= i < backend_url.len() ==> #[trigger] backend_url[i] == '/'
            &&& address.subrange(n, n + 10) == "/ws/agent/"@
            &&& address.skip(n + 10) == agent_id
        }),
{
    reveal_strlit("/ws/agent/");
    only_the_trailing_goes(backend_url, '/');
    let address = agent_address(backend_url, agent_id);
    let n = address.len() - agent_id.len() - 10;
    assert(address.take(n) =~= backend_url.take(n));
    assert(address.subrange(n, n + 10) =~= "/ws/agent/"@);
    assert(address.skip(n + 10) =~= agent_id);
}

/// Two agents of one backend have one address only where they have one identifier.
pub proof fn agents_have_addresses_of_their_own(backend_url: Seq<char>, a: Seq<char>, b: Seq<char>)
    requires
        agent_address(backend_url, a) == agent_address(backend_url, b),
    ensures
        a == b,
{
    address_names_backend_and_agent(backend_url, a);
    address_names_backend_and_agent(backend_url, b);
    let base = without_trailing(backend_url, '/');
    assert(agent_address(backend_url, a).len() == base.len() + "/ws/agent/"@.len() + a.len());
    assert(agent_address(backend_url, b).len() == base.len() + "/ws/agent/"@.len() + b.len());
}

/// A connection is encrypted exactly where its address begins with the scheme for that.
pub proof fn scheme_asks_for_encryption(address: Seq<char>)
    ensures
        is_encrypted(address) <==> address.len() >= 6 && address[0] == 'w' && address[1] == 's'
            && address[2] == 's' && address[3] == ':' && address[4] == '/' && address[5] == '/',
{
    reveal_strlit("wss://");
    prefixes_are_prefixes(address, "wss://"@);
    if address.len() >= 6 && address[0] == 'w' && address[1] == 's' && address[2] == 's'
        && address[3] == ':' && address[4] == '/' && address[5] == '/' {
        assert(address =~= "wss://"@ + address.skip(6));
    }
    if is_encrypted(address) {
        let rest = choose|rest: Seq<char>| address == #[trigger] ("wss://"@ + rest);
        assert(address[0] == "wss://"@[0]);
    }
}

/// The settings of an agent are seen whole.
pub proof fn settings_of_an_agent_are_seen_whole(c: AgentConfig)
    ensures
        c@.ram_mb == c.ram_mb@,
        c@.agent_id == c.agent_id@,
        c@.backend_url == c.backend_url@,
{
}

} // verus!
