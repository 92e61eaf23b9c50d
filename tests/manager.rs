use zenoh_transport::error::ZError;
use zenoh_transport::link::EndPoint;
use zenoh_transport::manager::{TransportManager, UnicastConfigValues};
use zenoh_transport::transport::{TransportConfigUnicast, WhatAmI, ZenohId};

fn ep(locator: &str) -> EndPoint {
    EndPoint { locator: String::from(locator), config: vec![] }
}

fn manager(max_sessions: usize, accept_pending: usize) -> TransportManager {
    let params = TransportManager::config_unicast()
        .max_sessions(max_sessions)
        .accept_pending(accept_pending)
        .build();
    let defaults = vec![(
        String::from("tcp"),
        vec![(String::from("nodelay"), String::from("true"))],
    )];
    TransportManager::new(params, defaults)
}

fn peer_config(id: u128) -> TransportConfigUnicast {
    TransportConfigUnicast {
        peer: ZenohId { id },
        whatami: WhatAmI::Peer,
        sn_resolution: 1 << 28,
        tx_initial_sn: 0,
        is_shm: false,
        is_qos: true,
    }
}

#[test]
fn builder_defaults() {
    let b = TransportManager::config_unicast();
    assert_eq!(b.lease, 10000);
    assert_eq!(b.keep_alive, 4);
    assert_eq!(b.accept_timeout, 10000);
    assert_eq!(b.accept_pending, 100);
    assert_eq!(b.max_sessions, 1000);
    assert_eq!(b.max_links, 1);
    assert!(b.is_qos);
    assert!(!b.is_shm);
}

#[test]
fn builder_setters_and_build() {
    let p = TransportManager::config_unicast()
        .lease(3000)
        .keep_alive(3)
        .accept_timeout(500)
        .accept_pending(7)
        .max_sessions(9)
        .max_links(2)
        .qos(false)
        .shm(true)
        .build();
    assert_eq!(p.config.lease, 3000);
    assert_eq!(p.config.keep_alive, 3);
    assert_eq!(p.config.accept_timeout, 500);
    assert_eq!(p.config.accept_pending, 7);
    assert_eq!(p.config.max_sessions, 9);
    assert_eq!(p.config.max_links, 2);
    assert!(!p.config.is_qos);
    assert!(p.config.is_shm);
}

#[test]
fn builder_from_config() {
    let values = UnicastConfigValues {
        lease: 1,
        keep_alive: 2,
        accept_timeout: 3,
        accept_pending: 4,
        max_sessions: 5,
        max_links: 6,
        qos_enabled: false,
        shm_enabled: true,
    };
    let b = TransportManager::config_unicast().from_config(&values);
    assert_eq!(
        (b.lease, b.keep_alive, b.accept_timeout, b.accept_pending, b.max_sessions, b.max_links),
        (1, 2, 3, 4, 5, 6)
    );
    assert!(!b.is_qos);
    assert!(b.is_shm);
}

#[test]
fn third_session_over_cap_is_refused() {
    let mut m = manager(2, 4);
    assert!(m.init_transport_unicast(peer_config(1)).is_ok());
    assert!(m.init_transport_unicast(peer_config(2)).is_ok());
    assert_eq!(
        m.init_transport_unicast(peer_config(3)),
        Err(ZError::MaxSessionsReached { max: 2 })
    );
    assert_eq!(m.get_transports_unicast().len(), 2);
    assert!(m.get_transport_unicast(&ZenohId { id: 3 }).is_none());
}

#[test]
fn inbound_flood_is_dampened() {
    let mut m = manager(10, 4);
    let mut admitted = 0;
    let mut closed = 0;
    for _ in 0..10 {
        if m.handle_new_link_unicast() {
            admitted += 1;
        } else {
            closed += 1;
        }
        assert!(m.incoming_count() <= 4);
    }
    assert_eq!(admitted, 4);
    assert_eq!(closed, 6);
    for _ in 0..admitted {
        m.accept_done_unicast();
    }
    assert_eq!(m.incoming_count(), 0);
}

#[test]
fn accept_done_without_pending_stays_at_zero() {
    let mut m = manager(10, 4);
    m.accept_done_unicast();
    assert_eq!(m.incoming_count(), 0);
}

#[test]
fn zero_accept_pending_refuses_all() {
    let mut m = manager(10, 0);
    assert!(!m.handle_new_link_unicast());
    assert_eq!(m.incoming_count(), 0);
}

#[test]
fn init_transport_is_idempotent() {
    let mut m = manager(2, 4);
    let first = m.init_transport_unicast(peer_config(1)).unwrap();
    let mut again = peer_config(1);
    again.tx_initial_sn = 42;
    let second = m.init_transport_unicast(again).unwrap();
    assert_eq!(first, second);
    assert_eq!(second.config.tx_initial_sn, 0);
    assert_eq!(m.get_transports_unicast().len(), 1);
    assert_eq!(m.get_transport_unicast(&ZenohId { id: 1 }), Some(first));
}

#[test]
fn existing_peer_at_cap_is_returned() {
    let mut m = manager(1, 4);
    let first = m.init_transport_unicast(peer_config(1)).unwrap();
    assert_eq!(m.init_transport_unicast(peer_config(1)), Ok(first));
}

#[test]
fn zero_max_sessions_refuses_all() {
    let mut m = manager(0, 4);
    assert_eq!(
        m.init_transport_unicast(peer_config(1)),
        Err(ZError::MaxSessionsReached { max: 0 })
    );
}

#[test]
fn fundamental_mismatches_are_reported() {
    let mut m = manager(4, 4);
    m.init_transport_unicast(peer_config(1)).unwrap();

    let mut c = peer_config(1);
    c.whatami = WhatAmI::Router;
    assert_eq!(
        m.init_transport_unicast(c),
        Err(ZError::InvalidWhatami { got: WhatAmI::Router, expected: WhatAmI::Peer })
    );

    let mut c = peer_config(1);
    c.sn_resolution = 128;
    assert_eq!(
        m.init_transport_unicast(c),
        Err(ZError::InvalidSnResolution { got: 128, expected: 1 << 28 })
    );

    let mut c = peer_config(1);
    c.is_shm = true;
    assert_eq!(
        m.init_transport_unicast(c),
        Err(ZError::InvalidShm { got: true, expected: false })
    );

    let mut c = peer_config(1);
    c.is_qos = false;
    assert_eq!(
        m.init_transport_unicast(c),
        Err(ZError::InvalidQos { got: false, expected: true })
    );

    let mut c = peer_config(1);
    c.whatami = WhatAmI::Client;
    c.is_qos = false;
    assert_eq!(
        m.init_transport_unicast(c),
        Err(ZError::InvalidWhatami { got: WhatAmI::Client, expected: WhatAmI::Peer })
    );
}

#[test]
fn del_transport() {
    let mut m = manager(4, 4);
    m.init_transport_unicast(peer_config(1)).unwrap();
    m.init_transport_unicast(peer_config(2)).unwrap();
    assert_eq!(m.del_transport_unicast(&ZenohId { id: 1 }), Ok(()));
    assert!(m.get_transport_unicast(&ZenohId { id: 1 }).is_none());
    assert_eq!(
        m.del_transport_unicast(&ZenohId { id: 1 }),
        Err(ZError::UnknownPeer { peer: ZenohId { id: 1 } })
    );
    assert_eq!(m.get_transports_unicast().len(), 1);
    assert_eq!(m.get_transports_unicast()[0].config.peer, ZenohId { id: 2 });
}

#[test]
fn endpoint_protocol() {
    assert_eq!(ep("tcp/127.0.0.1:7447").protocol(), "tcp");
    assert_eq!(ep("udp/[::1]:7447?iface=lo").protocol(), "udp");
    assert_eq!(ep("quic").protocol(), "quic");
    assert_eq!(ep("").protocol(), "");
}

#[test]
fn add_listener_merges_protocol_defaults() {
    let mut m = manager(4, 4);
    let mut e = ep("tcp/127.0.0.1:7447");
    e.config.push((String::from("nodelay"), String::from("false")));
    let merged = m.add_listener_unicast(e);
    assert_eq!(merged.locator, "tcp/127.0.0.1:7447");
    assert_eq!(
        merged.config,
        vec![
            (String::from("nodelay"), String::from("false")),
            (String::from("nodelay"), String::from("true")),
        ]
    );
    let other = m.add_listener_unicast(ep("udp/127.0.0.1:7447"));
    assert!(other.config.is_empty());
}

#[test]
fn listeners_and_locators_are_listed() {
    let mut m = manager(4, 4);
    let a = m.add_listener_unicast(ep("tcp/127.0.0.1:7447"));
    m.register_listener_unicast(a, String::from("tcp/127.0.0.1:7447"));
    let b = m.add_listener_unicast(ep("udp/0.0.0.0:7448"));
    m.register_listener_unicast(b, String::from("udp/10.0.0.1:7448"));
    let c = m.add_listener_unicast(ep("tcp/127.0.0.1:7449"));
    m.register_listener_unicast(c, String::from("tcp/127.0.0.1:7449"));
    let ls: Vec<String> = m.get_listeners_unicast().into_iter().map(|e| e.locator).collect();
    assert_eq!(ls, vec!["tcp/127.0.0.1:7447", "tcp/127.0.0.1:7449", "udp/0.0.0.0:7448"]);
    assert_eq!(
        m.get_locators_unicast(),
        vec!["tcp/127.0.0.1:7447", "tcp/127.0.0.1:7449", "udp/10.0.0.1:7448"]
    );
}

#[test]
fn del_last_listener_removes_link_manager() {
    let mut m = manager(4, 4);
    let a = m.add_listener_unicast(ep("tcp/127.0.0.1:7447"));
    m.register_listener_unicast(a, String::from("tcp/127.0.0.1:7447"));
    let b = m.add_listener_unicast(ep("tcp/127.0.0.1:7448"));
    m.register_listener_unicast(b, String::from("tcp/127.0.0.1:7448"));
    assert_eq!(m.del_listener_unicast(&ep("tcp/127.0.0.1:7447")), Ok(()));
    assert_eq!(m.get_locators_unicast(), vec!["tcp/127.0.0.1:7448"]);
    assert_eq!(m.del_listener_unicast(&ep("tcp/127.0.0.1:7448")), Ok(()));
    assert!(m.get_listeners_unicast().is_empty());
    assert_eq!(
        m.del_listener_unicast(&ep("tcp/127.0.0.1:7448")),
        Err(ZError::UnknownProtocol)
    );
}

#[test]
fn del_listener_without_link_manager() {
    let mut m = manager(4, 4);
    assert_eq!(m.del_listener_unicast(&ep("tcp/127.0.0.1:7447")), Err(ZError::UnknownProtocol));
}

#[test]
fn open_transport_refuses_multicast() {
    let mut m = manager(4, 4);
    assert_eq!(
        m.open_transport_unicast(ep("udp/224.0.0.224:7447"), true).map(|e| e.locator),
        Err(ZError::MulticastEndpointForUnicast)
    );
    let e = m.open_transport_unicast(ep("tcp/10.0.0.1:7447"), false).unwrap();
    assert_eq!(e.locator, "tcp/10.0.0.1:7447");
    assert_eq!(e.config, vec![(String::from("nodelay"), String::from("true"))]);
}

#[test]
fn close_empties_everything() {
    let mut m = manager(4, 4);
    let a = m.add_listener_unicast(ep("tcp/127.0.0.1:7447"));
    m.register_listener_unicast(a, String::from("tcp/127.0.0.1:7447"));
    m.init_transport_unicast(peer_config(1)).unwrap();
    m.init_transport_unicast(peer_config(2)).unwrap();
    assert!(m.handle_new_link_unicast());
    let (listeners, transports) = m.close_unicast();
    assert_eq!(listeners.len(), 1);
    assert_eq!(listeners[0].locator, "tcp/127.0.0.1:7447");
    assert_eq!(transports.len(), 2);
    assert_eq!(m.incoming_count(), 0);
    assert!(m.get_listeners_unicast().is_empty());
    assert!(m.get_locators_unicast().is_empty());
    assert!(m.get_transports_unicast().is_empty());
}

#[test]
fn link_manager_lookup_and_removal() {
    let mut m = manager(4, 4);
    let tcp = String::from("tcp");
    assert!(matches!(m.get_link_manager_unicast(&tcp), Err(ZError::UnknownProtocol)));
    m.add_listener_unicast(ep("tcp/127.0.0.1:7447"));
    let lm = m.get_link_manager_unicast(&tcp).unwrap();
    assert_eq!(lm.protocol, "tcp");
    assert!(lm.listeners.is_empty());
    assert_eq!(m.del_link_manager_unicast(&tcp), Ok(()));
    assert_eq!(m.del_link_manager_unicast(&tcp), Err(ZError::UnknownProtocol));
}
