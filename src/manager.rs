//! The unicast transport manager: admission of inbound links, the table of
//! link managers (one per protocol) and the table of transports (one per
//! peer).
//!
//! The manager keeps the state and takes the decisions; the link drivers and
//! the establishment protocol run outside it and report back.
use crate::error::ZError;
use crate::link::{merge_options, options_view, protocol_of, EndPoint, EndPointView};
use crate::transport::{TransportConfigUnicast, TransportUnicast, ZenohId};
use vstd::prelude::*;

verus! {

/// Default lease, in milliseconds.
pub const LINK_LEASE_DEFAULT: u64 = 10000;

/// Default keep-alive divisor of the lease.
pub const LINK_KEEP_ALIVE_DEFAULT: usize = 4;

/// Default bound on one inbound establishment, in milliseconds.
pub const OPEN_TIMEOUT_DEFAULT: u64 = 10000;

/// Default bound on concurrent inbound establishments.
pub const OPEN_INCOMING_PENDING_DEFAULT: usize = 100;

/// Default cap on unicast transports.
pub const MAX_SESSIONS_UNICAST_DEFAULT: usize = 1000;

/// Default cap on links per transport.
pub const MAX_LINKS_DEFAULT: usize = 1;

pub const QOS_DEFAULT: bool = true;

pub const SHM_DEFAULT: bool = false;

/*************************************/
/*         TRANSPORT CONFIG          */
/*************************************/
/// Durations are in milliseconds.
#[derive(Clone, Copy, Debug)]
pub struct TransportManagerConfigUnicast {
    pub lease: u64,
    pub keep_alive: usize,
    pub accept_timeout: u64,
    pub accept_pending: usize,
    pub max_sessions: usize,
    pub max_links: usize,
    pub is_qos: bool,
    pub is_shm: bool,
}

/// The values a configuration file gives for the unicast manager (durations
/// in milliseconds).
#[derive(Clone, Copy, Debug)]
pub struct UnicastConfigValues {
    pub lease: u64,
    pub keep_alive: usize,
    pub accept_timeout: u64,
    pub accept_pending: usize,
    pub max_sessions: usize,
    pub max_links: usize,
    pub qos_enabled: bool,
    pub shm_enabled: bool,
}

/// A listener of a link manager: the endpoint it was asked for and the
/// locator it is bound to.
#[derive(Clone, Debug)]
pub struct Listener {
    pub endpoint: EndPoint,
    pub locator: String,
}

/// What the manager records of the link manager of one protocol.
#[derive(Clone, Debug)]
pub struct LinkManagerUnicast {
    pub protocol: String,
    pub listeners: Vec<Listener>,
}

pub struct TransportManagerStateUnicast {
    // Incoming uninitialized transports
    incoming: usize,
    // Established listeners, one link manager per protocol
    protocols: Vec<LinkManagerUnicast>,
    // Established transports, one per peer
    transports: Vec<TransportUnicast>,
}

impl TransportManagerStateUnicast {
    /// No inbound link pending, no link manager, no transport.
    pub closed spec fn is_fresh(&self) -> bool {
        self.incoming == 0 && self.protocols@.len() == 0 && self.transports@.len() == 0
    }
}

pub struct TransportManagerParamsUnicast {
    pub config: TransportManagerConfigUnicast,
    pub state: TransportManagerStateUnicast,
}

#[derive(Clone, Copy, Debug)]
pub struct TransportManagerBuilderUnicast {
    // NOTE: In order to consider eventual packet loss and transmission latency and jitter,
    //       set the actual keep_alive timeout to one fourth of the lease time.
    //       This is in-line with the ITU-T G.8013/Y.1731 specification on continous connectivity
    //       check which considers a link as failed when no messages are received in 3.5 times the
    //       target interval.
    pub lease: u64,
    pub keep_alive: usize,
    pub accept_timeout: u64,
    pub accept_pending: usize,
    pub max_sessions: usize,
    pub max_links: usize,
    pub is_qos: bool,
    pub is_shm: bool,
}

impl TransportManagerBuilderUnicast {
    pub fn lease(self, lease: u64) -> (r: Self)
        ensures
            r == (Self { lease, ..self }),
    {
        Self { lease, ..self }
    }

    pub fn keep_alive(self, keep_alive: usize) -> (r: Self)
        ensures
            r == (Self { keep_alive, ..self }),
    {
        Self { keep_alive, ..self }
    }

    pub fn accept_timeout(self, accept_timeout: u64) -> (r: Self)
        ensures
            r == (Self { accept_timeout, ..self }),
    {
        Self { accept_timeout, ..self }
    }

    pub fn accept_pending(self, accept_pending: usize) -> (r: Self)
        ensures
            r == (Self { accept_pending, ..self }),
    {
        Self { accept_pending, ..self }
    }

    pub fn max_sessions(self, max_sessions: usize) -> (r: Self)
        ensures
            r == (Self { max_sessions, ..self }),
    {
        Self { max_sessions, ..self }
    }

    pub fn max_links(self, max_links: usize) -> (r: Self)
        ensures
            r == (Self { max_links, ..self }),
    {
        Self { max_links, ..self }
    }

    pub fn qos(self, is_qos: bool) -> (r: Self)
        ensures
            r == (Self { is_qos, ..self }),
    {
        Self { is_qos, ..self }
    }

    pub fn shm(self, is_shm: bool) -> (r: Self)
        ensures
            r == (Self { is_shm, ..self }),
    {
        Self { is_shm, ..self }
    }

    /// Takes every value from the configuration.
    pub fn from_config(self, config: &UnicastConfigValues) -> (r: Self)
        ensures
            r == (Self {
                lease: config.lease,
                keep_alive: config.keep_alive,
                accept_timeout: config.accept_timeout,
                accept_pending: config.accept_pending,
                max_sessions: config.max_sessions,
                max_links: config.max_links,
                is_qos: config.qos_enabled,
                is_shm: config.shm_enabled,
            }),
    {
        let mut b = self;
        b = b.lease(config.lease);
        b = b.keep_alive(config.keep_alive);
        b = b.accept_timeout(config.accept_timeout);
        b = b.accept_pending(config.accept_pending);
        b = b.max_sessions(config.max_sessions);
        b = b.max_links(config.max_links);
        b = b.qos(config.qos_enabled);
        b = b.shm(config.shm_enabled);
        b
    }

    /// The configuration as set, and a fresh state.
    pub fn build(self) -> (r: TransportManagerParamsUnicast)
        ensures
            r.config.lease == self.lease,
            r.config.keep_alive == self.keep_alive,
            r.config.accept_timeout == self.accept_timeout,
            r.config.accept_pending == self.accept_pending,
            r.config.max_sessions == self.max_sessions,
            r.config.max_links == self.max_links,
            r.config.is_qos == self.is_qos,
            r.config.is_shm == self.is_shm,
            r.state.is_fresh(),
    {
        let config = TransportManagerConfigUnicast {
            lease: self.lease,
            keep_alive: self.keep_alive,
            accept_timeout: self.accept_timeout,
            accept_pending: self.accept_pending,
            max_sessions: self.max_sessions,
            max_links: self.max_links,
            is_qos: self.is_qos,
            is_shm: self.is_shm,
        };
        let state = TransportManagerStateUnicast {
            incoming: 0,
            protocols: Vec::new(),
            transports: Vec::new(),
        };
        TransportManagerParamsUnicast { config, state }
    }
}

impl TransportManagerBuilderUnicast {
    /// Every option holds its default value.
    pub open spec fn is_default(&self) -> bool {
        &&& self.lease == LINK_LEASE_DEFAULT
        &&& self.keep_alive == LINK_KEEP_ALIVE_DEFAULT
        &&& self.accept_timeout == OPEN_TIMEOUT_DEFAULT
        &&& self.accept_pending == OPEN_INCOMING_PENDING_DEFAULT
        &&& self.max_sessions == MAX_SESSIONS_UNICAST_DEFAULT
        &&& self.max_links == MAX_LINKS_DEFAULT
        &&& self.is_qos == QOS_DEFAULT
        &&& self.is_shm == SHM_DEFAULT
    }
}

impl Default for TransportManagerBuilderUnicast {
    fn default() -> (r: Self)
        ensures
            r.is_default(),
    {
        Self {
            lease: LINK_LEASE_DEFAULT,
            keep_alive: LINK_KEEP_ALIVE_DEFAULT,
            accept_timeout: OPEN_TIMEOUT_DEFAULT,
            accept_pending: OPEN_INCOMING_PENDING_DEFAULT,
            max_sessions: MAX_SESSIONS_UNICAST_DEFAULT,
            max_links: MAX_LINKS_DEFAULT,
            is_qos: QOS_DEFAULT,
            is_shm: SHM_DEFAULT,
        }
    }
}

/*************************************/
/*         TRANSPORT MANAGER         */
/*************************************/
pub open spec fn protocol_at(s: Seq<LinkManagerUnicast>, p: Seq<char>, i: int) -> bool {
    0 <= i < s.len() && s[i].protocol@ == p
}

pub open spec fn has_protocol(s: Seq<LinkManagerUnicast>, p: Seq<char>) -> bool {
    exists|i: int| protocol_at(s, p, i)
}

pub open spec fn unique_protocols(s: Seq<LinkManagerUnicast>) -> bool {
    forall|i: int, j: int|
        0 <= i < s.len() && 0 <= j < s.len() && #[trigger] s[i].protocol@ == #[trigger] s[j].protocol@
            ==> i == j
}

pub open spec fn peer_at(s: Seq<TransportUnicast>, peer: ZenohId, i: int) -> bool {
    0 <= i < s.len() && s[i].config.peer == peer
}

pub open spec fn has_peer(s: Seq<TransportUnicast>, peer: ZenohId) -> bool {
    exists|i: int| peer_at(s, peer, i)
}

pub open spec fn unique_peers(s: Seq<TransportUnicast>) -> bool {
    forall|i: int, j: int|
        0 <= i < s.len() && 0 <= j < s.len() && #[trigger] s[i].config.peer
            == #[trigger] s[j].config.peer ==> i == j
}

/// The transport established with `peer` (meaningful when there is one).
pub open spec fn transport_of(s: Seq<TransportUnicast>, peer: ZenohId) -> TransportUnicast {
    s[choose|i: int| peer_at(s, peer, i)]
}

/// What `init_transport_unicast` answers for `config` when the table holds
/// `ts` and at most `max` transports are allowed.
pub open spec fn init_result(
    ts: Seq<TransportUnicast>,
    max: usize,
    config: TransportConfigUnicast,
) -> Result<TransportUnicast, ZError> {
    if has_peer(ts, config.peer) {
        let t = transport_of(ts, config.peer);
        if t.config.whatami != config.whatami {
            Err(ZError::InvalidWhatami { got: config.whatami, expected: t.config.whatami })
        } else if t.config.sn_resolution != config.sn_resolution {
            Err(
                ZError::InvalidSnResolution {
                    got: config.sn_resolution,
                    expected: t.config.sn_resolution,
                },
            )
        } else if t.config.is_shm != config.is_shm {
            Err(ZError::InvalidShm { got: config.is_shm, expected: t.config.is_shm })
        } else if t.config.is_qos != config.is_qos {
            Err(ZError::InvalidQos { got: config.is_qos, expected: t.config.is_qos })
        } else {
            Ok(t)
        }
    } else if ts.len() >= max {
        Err(ZError::MaxSessionsReached { max })
    } else {
        Ok(TransportUnicast { config })
    }
}

/// The transport table after `init_transport_unicast`: only a new peer below
/// the cap adds an entry.
pub open spec fn init_table(
    ts: Seq<TransportUnicast>,
    max: usize,
    config: TransportConfigUnicast,
) -> Seq<TransportUnicast> {
    if !has_peer(ts, config.peer) && ts.len() < max {
        ts.push(TransportUnicast { config })
    } else {
        ts
    }
}

pub open spec fn listener_endpoints(ls: Seq<Listener>) -> Seq<EndPointView> {
    ls.map_values(|l: Listener| l.endpoint@)
}

pub open spec fn listener_locators(ls: Seq<Listener>) -> Seq<Seq<char>> {
    ls.map_values(|l: Listener| l.locator@)
}

/// The endpoints of all listeners, link manager after link manager.
pub open spec fn all_endpoints(s: Seq<LinkManagerUnicast>) -> Seq<EndPointView>
    decreases s.len(),
{
    if s.len() == 0 {
        Seq::empty()
    } else {
        all_endpoints(s.drop_last()) + listener_endpoints(s.last().listeners@)
    }
}

/// The locators of all listeners, link manager after link manager.
pub open spec fn all_locators(s: Seq<LinkManagerUnicast>) -> Seq<Seq<char>>
    decreases s.len(),
{
    if s.len() == 0 {
        Seq::empty()
    } else {
        all_locators(s.drop_last()) + listener_locators(s.last().listeners@)
    }
}

/// `ls` without its first listener on the locator `loc`.
pub open spec fn without_endpoint(ls: Seq<Listener>, loc: Seq<char>) -> Seq<Listener>
    decreases ls.len(),
{
    if ls.len() == 0 {
        ls
    } else if ls[0].endpoint.locator@ == loc {
        ls.subrange(1, ls.len() as int)
    } else {
        seq![ls[0]] + without_endpoint(ls.subrange(1, ls.len() as int), loc)
    }
}

/// The default options of protocol `p`: those of its first entry in `d`.
pub open spec fn defaults_for(d: Seq<(String, Vec<(String, String)>)>, p: Seq<char>) -> Seq<
    (Seq<char>, Seq<char>),
>
    decreases d.len(),
{
    if d.len() == 0 {
        Seq::empty()
    } else if d[0].0@ == p {
        options_view(d[0].1@)
    } else {
        defaults_for(d.subrange(1, d.len() as int), p)
    }
}

/// `after` is `before` with the link manager of `p` obtained or created.
pub open spec fn with_link_manager(
    before: Seq<LinkManagerUnicast>,
    after: Seq<LinkManagerUnicast>,
    p: Seq<char>,
) -> bool {
    if has_protocol(before, p) {
        after == before
    } else {
        &&& after.len() == before.len() + 1
        &&& after.drop_last() == before
        &&& after.last().protocol@ == p
        &&& after.last().listeners@.len() == 0
    }
}

pub struct TransportManager {
    pub config: TransportManagerConfigUnicast,
    /// Per protocol, the options merged into each endpoint of that protocol.
    pub endpoint: Vec<(String, Vec<(String, String)>)>,
    pub state: TransportManagerStateUnicast,
}

impl TransportManager {
    /// The number of inbound links in establishment.
    pub closed spec fn incoming(&self) -> nat {
        self.state.incoming as nat
    }

    /// The link managers, one per protocol.
    pub closed spec fn protocols(&self) -> Seq<LinkManagerUnicast> {
        self.state.protocols@
    }

    /// The established transports, one per peer.
    pub closed spec fn transports(&self) -> Seq<TransportUnicast> {
        self.state.transports@
    }

    pub open spec fn wf(&self) -> bool {
        &&& self.incoming() <= self.config.accept_pending
        &&& self.transports().len() <= self.config.max_sessions
        &&& unique_protocols(self.protocols())
        &&& unique_peers(self.transports())
    }

    /// `self` and `other` have the same configuration.
    pub open spec fn same_setup(&self, other: &Self) -> bool {
        self.config == other.config && self.endpoint == other.endpoint
    }

    pub fn new(
        params: TransportManagerParamsUnicast,
        endpoint: Vec<(String, Vec<(String, String)>)>,
    ) -> (r: Self)
        requires
            params.state.is_fresh(),
        ensures
            r.wf(),
            r.config == params.config,
            r.endpoint == endpoint,
            r.incoming() == 0,
            r.protocols().len() == 0,
            r.transports().len() == 0,
    {
        TransportManager { config: params.config, endpoint, state: params.state }
    }

    pub fn config_unicast() -> (r: TransportManagerBuilderUnicast)
        ensures
            r.is_default(),
    {
        TransportManagerBuilderUnicast::default()
    }

    /// The number of inbound links in establishment.
    pub fn incoming_count(&self) -> (r: usize)
        ensures
            r == self.incoming(),
    {
        self.state.incoming
    }

    fn find_protocol(&self, protocol: &String) -> (r: Option<usize>)
        ensures
            match r {
                Some(i) => protocol_at(self.protocols(), protocol@, i as int),
                None => !has_protocol(self.protocols(), protocol@),
            },
    {
        let mut i: usize = 0;
        while i < self.state.protocols.len()
            invariant
                i <= self.protocols().len(),
                forall|j: int| 0 <= j < i ==> !protocol_at(self.protocols(), protocol@, j),
            decreases self.protocols().len() - i,
        {
            if self.state.protocols[i].protocol == *protocol {
                return Some(i);
            }
            i = i + 1;
        }
        None
    }

    fn find_peer(&self, peer: &ZenohId) -> (r: Option<usize>)
        ensures
            match r {
                Some(i) => peer_at(self.transports(), *peer, i as int),
                None => !has_peer(self.transports(), *peer),
            },
    {
        let mut i: usize = 0;
        while i < self.state.transports.len()
            invariant
                i <= self.transports().len(),
                forall|j: int| 0 <= j < i ==> !peer_at(self.transports(), *peer, j),
            decreases self.transports().len() - i,
        {
            if self.state.transports[i].config.peer == *peer {
                return Some(i);
            }
            i = i + 1;
        }
        None
    }

    /// Appends the default options of `protocol` to the endpoint's options.
    fn merge_defaults(&self, endpoint: &mut EndPoint, protocol: &String)
        ensures
            final(endpoint).locator == old(endpoint).locator,
            options_view(final(endpoint).config@) == options_view(old(endpoint).config@)
                + defaults_for(self.endpoint@, protocol@),
    {
        let n = self.endpoint.len();
        let mut i: usize = 0;
        assert(self.endpoint@.subrange(0, n as int) =~= self.endpoint@);
        while i < n
            invariant
                n == self.endpoint@.len(),
                i <= n,
                *endpoint == *old(endpoint),
                defaults_for(self.endpoint@, protocol@) == defaults_for(
                    self.endpoint@.subrange(i as int, n as int),
                    protocol@,
                ),
            decreases n - i,
        {
            if self.endpoint[i].0 == *protocol {
                merge_options(&mut endpoint.config, &self.endpoint[i].1);
                return;
            }
            assert(self.endpoint@.subrange(i as int, n as int).subrange(1, n - i)
                =~= self.endpoint@.subrange(i + 1, n as int));
            i = i + 1;
        }
        assert(options_view(endpoint.config@) + Seq::empty() =~= options_view(endpoint.config@));
    }

    proof fn lemma_has_peer_index(&self, peer: ZenohId, i: int)
        requires
            self.wf(),
            peer_at(self.transports(), peer, i),
        ensures
            transport_of(self.transports(), peer) == self.transports()[i],
    {
        let j = choose|j: int| peer_at(self.transports(), peer, j);
        assert(self.transports()[i].config.peer == self.transports()[j].config.peer);
    }
}

impl TransportManager {
    /// Forgets every link manager, transport and pending inbound link. Returns
    /// the listeners to delete and the transports to close, in table order.
    pub fn close_unicast(&mut self) -> (r: (Vec<EndPoint>, Vec<TransportUnicast>))
        requires
            old(self).wf(),
        ensures
            final(self).wf(),
            final(self).same_setup(old(self)),
            final(self).incoming() == 0,
            final(self).protocols().len() == 0,
            final(self).transports().len() == 0,
            r.0@.map_values(|e: EndPoint| e@) == all_endpoints(old(self).protocols()),
            r.1@ == old(self).transports(),
    {
        let listeners = self.get_listeners_unicast();
        let mut transports: Vec<TransportUnicast> = Vec::new();
        std::mem::swap(&mut transports, &mut self.state.transports);
        self.state.protocols = Vec::new();
        self.state.incoming = 0;
        (listeners, transports)
    }

    /// Obtains the link manager of `protocol`, creating it when there is none;
    /// returns its position in the table.
    fn new_link_manager_unicast(&mut self, protocol: &String) -> (i: usize)
        requires
            old(self).wf(),
        ensures
            final(self).wf(),
            final(self).same_setup(old(self)),
            final(self).incoming() == old(self).incoming(),
            final(self).transports() == old(self).transports(),
            with_link_manager(old(self).protocols(), final(self).protocols(), protocol@),
            protocol_at(final(self).protocols(), protocol@, i as int),
    {
        match self.find_protocol(protocol) {
            Some(i) => i,
            None => {
                let lm = LinkManagerUnicast { protocol: protocol.clone(), listeners: Vec::new() };
                self.state.protocols.push(lm);
                proof {
                    let s = old(self).protocols();
                    let t = self.protocols();
                    assert(t.drop_last() =~= s);
                    assert forall|a: int, b: int|
                        0 <= a < t.len() && 0 <= b < t.len() && #[trigger] t[a].protocol@
                            == #[trigger] t[b].protocol@ implies a == b by {
                        if a < s.len() && b == s.len() {
                            assert(protocol_at(s, protocol@, a));
                        }
                        if b < s.len() && a == s.len() {
                            assert(protocol_at(s, protocol@, b));
                        }
                    }
                }
                self.state.protocols.len() - 1
            },
        }
    }

    pub fn get_link_manager_unicast(&self, protocol: &String) -> (r: Result<
        &LinkManagerUnicast,
        ZError,
    >)
        ensures
            match r {
                Ok(lm) => exists|i: int|
                    protocol_at(self.protocols(), protocol@, i) && self.protocols()[i] == *lm,
                Err(e) => e == ZError::UnknownProtocol && !has_protocol(
                    self.protocols(),
                    protocol@,
                ),
            },
    {
        match self.find_protocol(protocol) {
            Some(i) => Ok(&self.state.protocols[i]),
            None => Err(ZError::UnknownProtocol),
        }
    }

    pub fn del_link_manager_unicast(&mut self, protocol: &String) -> (r: Result<(), ZError>)
        requires
            old(self).wf(),
        ensures
            final(self).wf(),
            final(self).same_setup(old(self)),
            final(self).incoming() == old(self).incoming(),
            final(self).transports() == old(self).transports(),
            !has_protocol(final(self).protocols(), protocol@),
            match r {
                Ok(_) => exists|i: int|
                    protocol_at(old(self).protocols(), protocol@, i) && final(self).protocols()
                        == old(self).protocols().remove(i),
                Err(e) => e == ZError::UnknownProtocol && !has_protocol(
                    old(self).protocols(),
                    protocol@,
                ) && final(self).protocols() == old(self).protocols(),
            },
    {
        match self.find_protocol(protocol) {
            Some(i) => {
                self.state.protocols.remove(i);
                proof {
                    let s = old(self).protocols();
                    let t = self.protocols();
                    assert forall|a: int, b: int|
                        0 <= a < t.len() && 0 <= b < t.len() && #[trigger] t[a].protocol@
                            == #[trigger] t[b].protocol@ implies a == b by {
                        let a1 = if a < i { a } else { a + 1 };
                        let b1 = if b < i { b } else { b + 1 };
                        assert(t[a] == s[a1] && t[b] == s[b1]);
                    }
                    assert forall|j: int| !protocol_at(t, protocol@, j) by {
                        if protocol_at(t, protocol@, j) {
                            let j1 = if j < i { j } else { j + 1 };
                            assert(t[j] == s[j1]);
                        }
                    }
                }
                Ok(())
            },
            None => Err(ZError::UnknownProtocol),
        }
    }

    /// Prepares a new listener: obtains or creates the link manager of the
    /// endpoint's protocol, and returns the endpoint with that protocol's
    /// default options merged in, for the link driver to bind.
    pub fn add_listener_unicast(&mut self, endpoint: EndPoint) -> (r: EndPoint)
        requires
            old(self).wf(),
        ensures
            final(self).wf(),
            final(self).same_setup(old(self)),
            final(self).incoming() == old(self).incoming(),
            final(self).transports() == old(self).transports(),
            with_link_manager(
                old(self).protocols(),
                final(self).protocols(),
                protocol_of(endpoint.locator@),
            ),
            r.locator@ == endpoint.locator@,
            options_view(r.config@) == options_view(endpoint.config@) + defaults_for(
                old(self).endpoint@,
                protocol_of(endpoint.locator@),
            ),
    {
        let protocol = endpoint.protocol();
        self.new_link_manager_unicast(&protocol);
        let mut endpoint = endpoint;
        self.merge_defaults(&mut endpoint, &protocol);
        endpoint
    }

    /// Records a listener that the link driver bound to `locator`.
    pub fn register_listener_unicast(&mut self, endpoint: EndPoint, locator: String)
        requires
            old(self).wf(),
        ensures
            final(self).wf(),
            final(self).same_setup(old(self)),
            final(self).incoming() == old(self).incoming(),
            final(self).transports() == old(self).transports(),
            ({
                let p = protocol_of(endpoint.locator@);
                let s = old(self).protocols();
                let t = final(self).protocols();
                &&& t.len() == s.len() + if has_protocol(s, p) {
                    0int
                } else {
                    1int
                }
                &&& forall|j: int| 0 <= j < s.len() && s[j].protocol@ != p ==> t[j] == s[j]
                &&& exists|i: int|
                    {
                        &&& protocol_at(t, p, i)
                        &&& t[i].listeners@.len() > 0
                        &&& t[i].listeners@.drop_last() == (if has_protocol(s, p) {
                            s[i].listeners@
                        } else {
                            Seq::empty()
                        })
                        &&& t[i].listeners@.last().endpoint@ == endpoint@
                        &&& t[i].listeners@.last().locator@ == locator@
                    }
            }),
    {
        let protocol = endpoint.protocol();
        let ghost p = protocol@;
        let i = self.new_link_manager_unicast(&protocol);
        let ghost mid = self.protocols();
        let mut lm = self.state.protocols.remove(i);
        let ghost before = lm.listeners@;
        lm.listeners.push(Listener { endpoint, locator });
        self.state.protocols.insert(i, lm);
        proof {
            let s = old(self).protocols();
            let t = self.protocols();
            assert(t =~= mid.update(i as int, t[i as int]));
            assert(t[i as int].listeners@.drop_last() =~= before);
            assert forall|a: int, b: int|
                0 <= a < t.len() && 0 <= b < t.len() && #[trigger] t[a].protocol@
                    == #[trigger] t[b].protocol@ implies a == b by {
                assert(mid[a].protocol@ == t[a].protocol@);
                assert(mid[b].protocol@ == t[b].protocol@);
            }
            if has_protocol(s, p) {
                assert(mid == s);
            } else {
                assert(mid.drop_last() == s);
                assert forall|j: int| 0 <= j < s.len() && s[j].protocol@ != p implies t[j]
                    == s[j] by {
                    assert(mid[j] == s[j]);
                }
                assert(i == s.len()) by {
                    assert(mid[mid.len() - 1].protocol@ == p);
                }
            }
            assert(protocol_at(t, p, i as int));
        }
    }

    /// Removes the record of the endpoint's listener (the link driver has
    /// already deleted it), and the link manager of its protocol when that
    /// leaves it with no listener.
    pub fn del_listener_unicast(&mut self, endpoint: &EndPoint) -> (r: Result<(), ZError>)
        requires
            old(self).wf(),
        ensures
            final(self).wf(),
            final(self).same_setup(old(self)),
            final(self).incoming() == old(self).incoming(),
            final(self).transports() == old(self).transports(),
            ({
                let p = protocol_of(endpoint.locator@);
                let s = old(self).protocols();
                let t = final(self).protocols();
                match r {
                    Ok(_) => exists|i: int|
                        {
                            let left = without_endpoint(s[i].listeners@, endpoint.locator@);
                            &&& #[trigger] protocol_at(s, p, i)
                            &&& left.len() == 0 ==> t == s.remove(i) && !has_protocol(t, p)
                            &&& left.len() > 0 ==> t.len() == s.len() && t[i].protocol
                                == s[i].protocol && t[i].listeners@ == left && forall|j: int|
                                0 <= j < s.len() && j != i ==> t[j] == s[j]
                        },
                    Err(e) => e == ZError::UnknownProtocol && !has_protocol(s, p) && t == s,
                }
            }),
    {
        let protocol = endpoint.protocol();
        let ghost p = protocol@;
        let i = match self.find_protocol(&protocol) {
            Some(i) => i,
            None => {
                return Err(ZError::UnknownProtocol);
            },
        };
        let mut lm = self.state.protocols.remove(i);
        remove_listener(&mut lm.listeners, &endpoint.locator);
        if lm.listeners.len() == 0 {
            proof {
                let s = old(self).protocols();
                let t = self.protocols();
                assert(t == s.remove(i as int));
                assert forall|a: int, b: int|
                    0 <= a < t.len() && 0 <= b < t.len() && #[trigger] t[a].protocol@
                        == #[trigger] t[b].protocol@ implies a == b by {
                    let a1 = if a < i { a } else { a + 1 };
                    let b1 = if b < i { b } else { b + 1 };
                    assert(t[a] == s[a1] && t[b] == s[b1]);
                }
                assert forall|j: int| !protocol_at(t, p, j) by {
                    if protocol_at(t, p, j) {
                        let j1 = if j < i { j } else { j + 1 };
                        assert(t[j] == s[j1]);
                    }
                }
            }
            return Ok(());
        }
        self.state.protocols.insert(i, lm);
        proof {
            let s = old(self).protocols();
            let t = self.protocols();
            assert(t =~= s.update(i as int, t[i as int]));
            assert forall|a: int, b: int|
                0 <= a < t.len() && 0 <= b < t.len() && #[trigger] t[a].protocol@
                    == #[trigger] t[b].protocol@ implies a == b by {
                assert(s[a].protocol@ == t[a].protocol@);
                assert(s[b].protocol@ == t[b].protocol@);
            }
        }
        Ok(())
    }

    /// The endpoints of all listeners.
    pub fn get_listeners_unicast(&self) -> (r: Vec<EndPoint>)
        ensures
            r@.map_values(|e: EndPoint| e@) == all_endpoints(self.protocols()),
    {
        let mut r: Vec<EndPoint> = Vec::new();
        let mut i: usize = 0;
        while i < self.state.protocols.len()
            invariant
                i <= self.protocols().len(),
                r@.map_values(|e: EndPoint| e@) == all_endpoints(self.protocols().take(i as int)),
            decreases self.protocols().len() - i,
        {
            let ls = &self.state.protocols[i].listeners;
            let ghost base = r@.map_values(|e: EndPoint| e@);
            let mut j: usize = 0;
            while j < ls.len()
                invariant
                    j <= ls@.len(),
                    r@.map_values(|e: EndPoint| e@) == base + listener_endpoints(
                        ls@.take(j as int),
                    ),
                decreases ls@.len() - j,
            {
                let ghost prev = r@;
                r.push(ls[j].endpoint.duplicate());
                proof {
                    assert(r@.map_values(|e: EndPoint| e@) =~= prev.map_values(|e: EndPoint| e@).push(
                        ls@[j as int].endpoint@,
                    ));
                    assert(listener_endpoints(ls@.take(j + 1)) =~= listener_endpoints(
                        ls@.take(j as int),
                    ).push(ls@[j as int].endpoint@));
                }
                j = j + 1;
            }
            proof {
                let s = self.protocols();
                assert(s.take(i + 1).drop_last() =~= s.take(i as int));
                assert(ls@.take(ls@.len() as int) =~= ls@);
                assert(base + listener_endpoints(ls@) =~= all_endpoints(s.take(i + 1)));
            }
            i = i + 1;
        }
        assert(self.protocols().take(self.protocols().len() as int) =~= self.protocols());
        r
    }

    /// The locators of all listeners.
    pub fn get_locators_unicast(&self) -> (r: Vec<String>)
        ensures
            r@.map_values(|s: String| s@) == all_locators(self.protocols()),
    {
        let mut r: Vec<String> = Vec::new();
        let mut i: usize = 0;
        while i < self.state.protocols.len()
            invariant
                i <= self.protocols().len(),
                r@.map_values(|s: String| s@) == all_locators(self.protocols().take(i as int)),
            decreases self.protocols().len() - i,
        {
            let ls = &self.state.protocols[i].listeners;
            let ghost base = r@.map_values(|s: String| s@);
            let mut j: usize = 0;
            while j < ls.len()
                invariant
                    j <= ls@.len(),
                    r@.map_values(|s: String| s@) == base + listener_locators(ls@.take(j as int)),
                decreases ls@.len() - j,
            {
                let ghost prev = r@;
                r.push(ls[j].locator.clone());
                proof {
                    assert(r@.map_values(|s: String| s@) =~= prev.map_values(|s: String| s@).push(
                        ls@[j as int].locator@,
                    ));
                    assert(listener_locators(ls@.take(j + 1)) =~= listener_locators(
                        ls@.take(j as int),
                    ).push(ls@[j as int].locator@));
                }
                j = j + 1;
            }
            proof {
                let s = self.protocols();
                assert(s.take(i + 1).drop_last() =~= s.take(i as int));
                assert(ls@.take(ls@.len() as int) =~= ls@);
                assert(base + listener_locators(ls@) =~= all_locators(s.take(i + 1)));
            }
            i = i + 1;
        }
        assert(self.protocols().take(self.protocols().len() as int) =~= self.protocols());
        r
    }
}

/// Removes the first listener on `locator`, if any.
fn remove_listener(ls: &mut Vec<Listener>, locator: &String)
    ensures
        final(ls)@ == without_endpoint(old(ls)@, locator@),
{
    let n = ls.len();
    let mut k: usize = 0;
    assert(ls@.subrange(0, n as int) =~= ls@);
    assert(ls@.subrange(0, 0) + without_endpoint(ls@.subrange(0, n as int), locator@)
        =~= without_endpoint(ls@, locator@));
    while k < n
        invariant
            n == ls@.len(),
            *ls == *old(ls),
            k <= n,
            without_endpoint(ls@, locator@) == ls@.subrange(0, k as int) + without_endpoint(
                ls@.subrange(k as int, n as int),
                locator@,
            ),
        decreases n - k,
    {
        if ls[k].endpoint.locator == *locator {
            proof {
                assert(ls@.subrange(k as int, n as int).subrange(1, n - k) =~= ls@.subrange(
                    k + 1,
                    n as int,
                ));
                assert(ls@.subrange(0, k as int) + ls@.subrange(k + 1, n as int) =~= ls@.remove(
                    k as int,
                ));
            }
            ls.remove(k);
            return;
        }
        proof {
            assert(ls@.subrange(k as int, n as int).subrange(1, n - k) =~= ls@.subrange(
                k + 1,
                n as int,
            ));
            assert(ls@.subrange(0, k + 1) =~= ls@.subrange(0, k as int) + seq![ls@[k as int]]);
        }
        k = k + 1;
    }
    assert(ls@.subrange(0, n as int) + without_endpoint(ls@.subrange(n as int, n as int), locator@)
        =~= ls@);
}

impl TransportManager {
    /// Prepares an outbound transport. A multicast locator (as the locator
    /// inspector reports it in `is_multicast`) is refused; otherwise the link
    /// manager of the endpoint's protocol is obtained or created, and the
    /// endpoint is returned with that protocol's default options merged in,
    /// for the link driver to connect.
    pub fn open_transport_unicast(&mut self, endpoint: EndPoint, is_multicast: bool) -> (r: Result<
        EndPoint,
        ZError,
    >)
        requires
            old(self).wf(),
        ensures
            final(self).wf(),
            final(self).same_setup(old(self)),
            final(self).incoming() == old(self).incoming(),
            final(self).transports() == old(self).transports(),
            is_multicast ==> r == Err::<EndPoint, ZError>(ZError::MulticastEndpointForUnicast)
                && final(self).protocols() == old(self).protocols(),
            !is_multicast ==> r is Ok && with_link_manager(
                old(self).protocols(),
                final(self).protocols(),
                protocol_of(endpoint.locator@),
            ),
            r matches Ok(e) ==> e.locator@ == endpoint.locator@ && options_view(e.config@)
                == options_view(endpoint.config@) + defaults_for(
                old(self).endpoint@,
                protocol_of(endpoint.locator@),
            ),
    {
        if is_multicast {
            return Err(ZError::MulticastEndpointForUnicast);
        }
        Ok(self.add_listener_unicast(endpoint))
    }

    /// Installs the transport that the establishment protocol negotiated, or
    /// gives back the one already established with the peer when the
    /// fundamental parameters agree.
    pub fn init_transport_unicast(&mut self, config: TransportConfigUnicast) -> (r: Result<
        TransportUnicast,
        ZError,
    >)
        requires
            old(self).wf(),
        ensures
            final(self).wf(),
            final(self).same_setup(old(self)),
            final(self).incoming() == old(self).incoming(),
            final(self).protocols() == old(self).protocols(),
            r == init_result(old(self).transports(), old(self).config.max_sessions, config),
            final(self).transports() == init_table(
                old(self).transports(),
                old(self).config.max_sessions,
                config,
            ),
            r is Ok ==> final(self).transports().len() <= final(self).config.max_sessions,
    {
        match self.find_peer(&config.peer) {
            Some(i) => {
                proof {
                    self.lemma_has_peer_index(config.peer, i as int);
                }
                let t = self.state.transports[i];
                if t.config.whatami != config.whatami {
                    return Err(
                        ZError::InvalidWhatami { got: config.whatami, expected: t.config.whatami },
                    );
                }
                if t.config.sn_resolution != config.sn_resolution {
                    return Err(
                        ZError::InvalidSnResolution {
                            got: config.sn_resolution,
                            expected: t.config.sn_resolution,
                        },
                    );
                }
                if t.config.is_shm != config.is_shm {
                    return Err(ZError::InvalidShm { got: config.is_shm, expected: t.config.is_shm });
                }
                if t.config.is_qos != config.is_qos {
                    return Err(ZError::InvalidQos { got: config.is_qos, expected: t.config.is_qos });
                }
                Ok(t)
            },
            None => {
                if self.state.transports.len() >= self.config.max_sessions {
                    return Err(ZError::MaxSessionsReached { max: self.config.max_sessions });
                }
                let t = TransportUnicast { config };
                self.state.transports.push(t);
                proof {
                    let s = old(self).transports();
                    let u = self.transports();
                    assert forall|a: int, b: int|
                        0 <= a < u.len() && 0 <= b < u.len() && #[trigger] u[a].config.peer
                            == #[trigger] u[b].config.peer implies a == b by {
                        if a < s.len() && b == s.len() {
                            assert(peer_at(s, config.peer, a));
                        }
                        if b < s.len() && a == s.len() {
                            assert(peer_at(s, config.peer, b));
                        }
                    }
                }
                Ok(t)
            },
        }
    }

    pub fn get_transport_unicast(&self, peer: &ZenohId) -> (r: Option<TransportUnicast>)
        requires
            self.wf(),
        ensures
            has_peer(self.transports(), *peer) ==> r == Some(transport_of(self.transports(), *peer)),
            !has_peer(self.transports(), *peer) ==> r is None,
    {
        match self.find_peer(peer) {
            Some(i) => {
                proof {
                    self.lemma_has_peer_index(*peer, i as int);
                }
                Some(self.state.transports[i])
            },
            None => None,
        }
    }

    pub fn get_transports_unicast(&self) -> (r: Vec<TransportUnicast>)
        ensures
            r@ == self.transports(),
    {
        let mut r: Vec<TransportUnicast> = Vec::new();
        let mut i: usize = 0;
        while i < self.state.transports.len()
            invariant
                i <= self.transports().len(),
                r@ == self.transports().take(i as int),
            decreases self.transports().len() - i,
        {
            r.push(self.state.transports[i]);
            assert(self.transports().take(i + 1) =~= self.transports().take(i as int).push(
                self.transports()[i as int],
            ));
            i = i + 1;
        }
        assert(self.transports().take(self.transports().len() as int) =~= self.transports());
        r
    }

    /// Removes the transport of `peer` from the table.
    pub fn del_transport_unicast(&mut self, peer: &ZenohId) -> (r: Result<(), ZError>)
        requires
            old(self).wf(),
        ensures
            final(self).wf(),
            final(self).same_setup(old(self)),
            final(self).incoming() == old(self).incoming(),
            final(self).protocols() == old(self).protocols(),
            !has_peer(final(self).transports(), *peer),
            match r {
                Ok(_) => exists|i: int|
                    peer_at(old(self).transports(), *peer, i) && final(self).transports() == old(
                        self,
                    ).transports().remove(i),
                Err(e) => e == (ZError::UnknownPeer { peer: *peer }) && !has_peer(
                    old(self).transports(),
                    *peer,
                ) && final(self).transports() == old(self).transports(),
            },
    {
        match self.find_peer(peer) {
            Some(i) => {
                self.state.transports.remove(i);
                proof {
                    let s = old(self).transports();
                    let t = self.transports();
                    assert forall|a: int, b: int|
                        0 <= a < t.len() && 0 <= b < t.len() && #[trigger] t[a].config.peer
                            == #[trigger] t[b].config.peer implies a == b by {
                        let a1 = if a < i { a } else { a + 1 };
                        let b1 = if b < i { b } else { b + 1 };
                        assert(t[a] == s[a1] && t[b] == s[b1]);
                    }
                    assert forall|j: int| !peer_at(t, *peer, j) by {
                        if peer_at(t, *peer, j) {
                            let j1 = if j < i { j } else { j + 1 };
                            assert(t[j] == s[j1]);
                        }
                    }
                }
                Ok(())
            },
            None => Err(ZError::UnknownPeer { peer: *peer }),
        }
    }

    /// Admission of a new inbound link: it is admitted, and counted as
    /// pending, only while fewer than `accept_pending` links are pending;
    /// otherwise the caller closes it without notice.
    pub fn handle_new_link_unicast(&mut self) -> (admitted: bool)
        requires
            old(self).wf(),
        ensures
            final(self).wf(),
            final(self).same_setup(old(self)),
            final(self).protocols() == old(self).protocols(),
            final(self).transports() == old(self).transports(),
            admitted == (old(self).incoming() < old(self).config.accept_pending),
            final(self).incoming() == if admitted {
                old(self).incoming() + 1
            } else {
                old(self).incoming()
            },
            final(self).incoming() <= final(self).config.accept_pending,
    {
        if self.state.incoming >= self.config.accept_pending {
            return false;
        }
        self.state.incoming = self.state.incoming + 1;
        true
    }

    /// An admitted inbound link has finished its establishment, whatever the
    /// outcome: it no longer counts as pending.
    pub fn accept_done_unicast(&mut self)
        requires
            old(self).wf(),
        ensures
            final(self).wf(),
            final(self).same_setup(old(self)),
            final(self).protocols() == old(self).protocols(),
            final(self).transports() == old(self).transports(),
            final(self).incoming() == if old(self).incoming() > 0 {
                old(self).incoming() - 1
            } else {
                0
            },
    {
        if self.state.incoming > 0 {
            self.state.incoming = self.state.incoming - 1;
        }
    }
}

/// Initialising a transport a second time with the same peer and the same
/// fundamental parameters (role, sequence number resolution, shared memory,
/// QoS) gives back the transport that the first call returned, and leaves the
/// table as the first call left it.
pub proof fn lemma_init_transport_idempotent(
    ts: Seq<TransportUnicast>,
    max: usize,
    first: TransportConfigUnicast,
    second: TransportConfigUnicast,
)
    requires
        unique_peers(ts),
        second.peer == first.peer,
        second.whatami == first.whatami,
        second.sn_resolution == first.sn_resolution,
        second.is_shm == first.is_shm,
        second.is_qos == first.is_qos,
    ensures
        init_result(init_table(ts, max, first), max, second) == init_result(ts, max, first),
        init_table(init_table(ts, max, first), max, second) == init_table(ts, max, first),
{
    let ts1 = init_table(ts, max, first);
    if has_peer(ts, first.peer) {
        let i = choose|i: int| peer_at(ts, first.peer, i);
        assert(ts1 == ts);
    } else if ts.len() < max {
        let n = ts.len() as int;
        assert(peer_at(ts1, first.peer, n));
        let j = choose|j: int| peer_at(ts1, first.peer, j);
        if j < n {
            assert(peer_at(ts, first.peer, j));
        }
        assert(j == n);
    }
}

} // verus!
