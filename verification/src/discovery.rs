//! Discovery lifecycle: a node is idle or actively advertising, and
//! only an active node knows peers.
//!
//! The multicast machinery itself runs outside; this state machine
//! decides what the node advertises and remembers, and it guarantees
//! that an idle node has no peers and no advertisement out.

use vstd::prelude::*;

verus! {

/// The advertised service type.
pub fn mdns_service_name() -> (r: &'static str)
    ensures
        r@ == "_printctl._tcp.local"@,
{
    "_printctl._tcp.local"
}

/// The advertised service port.
pub const MDNS_SERVICE_PORT: u16 = 8090;

/// The advertisement's time to live, in seconds.
pub const MDNS_DEFAULT_TTL: u32 = 60;

/// How a node introduces itself.
#[derive(Debug, Clone)]
pub struct DiscoveryConfig {
    pub name: String,
}

impl DiscoveryConfig {
    pub fn new(name: String) -> (r: Self)
        ensures
            r.name == name,
    {
        DiscoveryConfig { name }
    }

    pub fn name(&self) -> (r: &String)
        ensures
            r == &self.name,
    {
        &self.name
    }

    /// A configuration named after the host.
    pub fn from_host() -> (r: Self) {
        DiscoveryConfig { name: host_name() }
    }
}

/// Marker for a node that is not advertising.
#[derive(Debug, Clone, Copy, PartialEq, Eq, Structural)]
pub struct Idle;

/// A peer instance seen on the network.
#[derive(Debug, Clone)]
pub struct Peer {
    pub instance_name: String,
    pub addresses: Vec<String>,
    pub attributes: Vec<(String, String)>,
}

impl Peer {
    pub fn new(instance_name: String, addresses: Vec<String>, attributes: Vec<(String, String)>)
        -> (r: Peer)
        ensures
            r.instance_name == instance_name,
            r.addresses == addresses,
            r.attributes == attributes,
    {
        Peer { instance_name, addresses, attributes }
    }

    pub fn name(&self) -> (r: &String)
        ensures
            r == &self.instance_name,
    {
        &self.instance_name
    }

    pub fn ip_addresses(&self) -> (r: &Vec<String>)
        ensures
            r == &self.addresses,
    {
        &self.addresses
    }
}

/// The two lifecycle phases.
#[derive(Debug, Clone, Copy, PartialEq, Eq, Structural)]
pub enum DiscoveryPhase {
    Idle,
    Active,
}

/// A discovery node: its configuration, phase, the peers reported while
/// active, and whether its own advertisement is out.
#[derive(Debug)]
pub struct Node {
    pub config: DiscoveryConfig,
    pub phase: DiscoveryPhase,
    pub peers: Vec<Peer>,
    pub advertised: bool,
}

impl Node {
    /// An idle node holds no peers and has no advertisement out.
    pub open spec fn wf(self) -> bool {
        self.phase is Idle ==> self.peers@.len() == 0 && !self.advertised
    }

    /// A fresh node: idle.
    pub fn new(config: DiscoveryConfig) -> (r: Self)
        ensures
            r.wf(),
            r.config == config,
            r.phase is Idle,
            r.peers@.len() == 0,
            r.advertised == false,
    {
        Node { config, phase: DiscoveryPhase::Idle, peers: Vec::new(), advertised: false }
    }

    /// The node's instance name.
    pub fn name(&self) -> (r: &String)
        ensures
            r == &self.config.name,
    {
        &self.config.name
    }

    /// Idle to active: the advertisement goes out and browsing begins.
    /// Allowed from idle any number of times over the node's life.
    pub fn start_discovery(&mut self)
        requires
            old(self).wf(),
            old(self).phase is Idle,
        ensures
            final(self).wf(),
            final(self).config == old(self).config,
            final(self).phase is Active,
            final(self).advertised == true,
            final(self).peers@.len() == 0,
    {
        self.phase = DiscoveryPhase::Active;
        self.advertised = true;
    }

    /// Record a peer the browser reported; only an active node listens.
    pub fn record_peer(&mut self, peer: Peer)
        requires
            old(self).wf(),
            old(self).phase is Active,
        ensures
            final(self).wf(),
            final(self).config == old(self).config,
            final(self).phase == old(self).phase,
            final(self).advertised == old(self).advertised,
            final(self).peers@ == old(self).peers@.push(peer),
    {
        self.peers.push(peer);
    }

    /// The peers known right now; an idle node reports none.
    pub fn peers(&self) -> (r: &Vec<Peer>)
        requires
            self.wf(),
        ensures
            r == &self.peers,
            self.phase is Idle ==> r@.len() == 0,
    {
        &self.peers
    }

    /// Active to idle: the node's own advertisement is withdrawn and
    /// the peer snapshot dropped.  Allowed from active any number of
    /// times over the node's life.
    pub fn stop_discovery(&mut self)
        requires
            old(self).wf(),
            old(self).phase is Active,
        ensures
            final(self).wf(),
            final(self).config == old(self).config,
            final(self).phase is Idle,
            final(self).advertised == false,
            final(self).peers@.len() == 0,
    {
        self.phase = DiscoveryPhase::Idle;
        self.advertised = false;
        self.peers = Vec::new();
    }
}

/// Starting and then stopping discovery returns the node to an idle
/// state indistinguishable from a fresh one with its configuration:
/// the lifecycle may repeat any number of times.
pub proof fn lemma_discovery_round_trip(a: Node, b: Node, c: Node)
    requires
        a.wf(),
        a.phase is Idle,
        // what start_discovery guarantees of b from a
        b.config == a.config && b.phase is Active && b.advertised && b.peers@.len() == 0,
        // what stop_discovery guarantees of c from b
        c.config == b.config && c.phase is Idle && !c.advertised && c.peers@.len() == 0,
    ensures
        c.config == a.config,
        c.phase is Idle,
        c.peers@.len() == 0,
        !c.advertised,
        c.wf(),
{
}

/// Relies on `gethostname::gethostname` for the host's name; the value
/// is environmental, so nothing is assumed of it.
#[verifier::external_body]
fn host_name() -> (r: String) {
    gethostname::gethostname().to_string_lossy().into_owned()
}

} // verus!
