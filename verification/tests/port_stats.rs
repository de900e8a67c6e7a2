//! Port statistics: hardware reset and the software-emulated fallback.

use dpdk::cap::{CapState, DescLimits, PortHw};
use dpdk::ids::SocketId;
use dpdk::port::Port;
use dpdk::stats::PortStat;

fn limits() -> DescLimits {
    DescLimits { nb_max: 4096, nb_min: 32, nb_align: 32 }
}

fn one_port_cap(stats_reset_supported: bool) -> CapState {
    let p = PortHw::discovered(
        0,
        SocketId::new(0),
        [2, 0, 0, 0, 0, 0],
        16,
        16,
        limits(),
        limits(),
        0,
        0,
        stats_reset_supported,
    );
    CapState::discovered(Vec::new(), vec![p])
}

fn handle(cap: &CapState, has_stats_reset: bool) -> Port {
    Port {
        port_id: cap.ports[0].port_id,
        port_idx: 0,
        socket: cap.ports[0].socket,
        owner_id: 0,
        has_stats_reset,
        prev_stat: PortStat::zeroed(),
    }
}

#[test]
fn software_fallback_reports_zero_deltas_without_traffic() {
    let mut cap = one_port_cap(false);
    cap.ports[0].raw_stat.ipackets = 11;
    cap.ports[0].raw_stat.opackets = 7;
    cap.ports[0].raw_stat.ibytes = 900;
    let mut port = handle(&cap, false);
    port.reset_stat(&mut cap);
    // Two reads in a row with no traffic in between: all-zero deltas, twice.
    let s1 = port.get_stat(&cap);
    let s2 = port.get_stat(&cap);
    assert_eq!(s1, PortStat::zeroed());
    assert_eq!(s2, PortStat::zeroed());
    // The raw hardware counters were not touched by the software reset.
    assert_eq!(cap.ports[0].raw_stat.ipackets, 11);
}

#[test]
fn software_fallback_reports_growth_since_baseline() {
    let mut cap = one_port_cap(false);
    cap.ports[0].raw_stat.ipackets = 10;
    cap.ports[0].raw_stat.ibytes = 100;
    let mut port = handle(&cap, false);
    port.reset_stat(&mut cap);
    cap.ports[0].raw_stat.ipackets = 14;
    cap.ports[0].raw_stat.ibytes = 460;
    let s = port.get_stat(&cap);
    assert_eq!(s.ipackets, 4);
    assert_eq!(s.ibytes, 360);
    assert_eq!(s.opackets, 0);
}

#[test]
fn hardware_reset_clears_raw_counters() {
    let mut cap = one_port_cap(true);
    cap.ports[0].raw_stat.opackets = 5;
    let mut port = handle(&cap, true);
    let before = port.get_stat(&cap);
    assert_eq!(before.opackets, 5);
    port.reset_stat(&mut cap);
    assert_eq!(cap.ports[0].raw_stat, PortStat::zeroed());
    let after = port.get_stat(&cap);
    assert_eq!(after, PortStat::zeroed());
}

#[test]
fn stat_delta_subtracts_every_field() {
    let cur = PortStat {
        ipackets: 10,
        opackets: 20,
        ibytes: 30,
        obytes: 40,
        ierrors: 5,
        oerrors: 6,
        imissed: 7,
        rx_nombuf: 8,
    };
    let base = PortStat {
        ipackets: 1,
        opackets: 2,
        ibytes: 3,
        obytes: 4,
        ierrors: 5,
        oerrors: 6,
        imissed: 0,
        rx_nombuf: 0,
    };
    let d = cur.delta(&base);
    assert_eq!(d.ipackets, 9);
    assert_eq!(d.opackets, 18);
    assert_eq!(d.ibytes, 27);
    assert_eq!(d.obytes, 36);
    assert_eq!(d.ierrors, 0);
    assert_eq!(d.oerrors, 0);
    assert_eq!(d.imissed, 7);
    assert_eq!(d.rx_nombuf, 8);
}

#[test]
fn default_port_stat_is_zero() {
    let s: PortStat = Default::default();
    assert_eq!(s, PortStat::zeroed());
}

#[test]
fn port_reports_identity_and_link() {
    let mut cap = one_port_cap(true);
    let port = handle(&cap, true);
    assert_eq!(port.port_id(), 0);
    assert_eq!(port.socket_id().raw(), 0);
    assert_eq!(port.mac_addr(&cap), [2, 0, 0, 0, 0, 0]);
    assert!(!port.is_link_up(&cap));
    cap.set_link(0, true);
    assert!(port.is_link_up(&cap));
}

#[test]
fn closing_a_port_releases_ownership() {
    let mut cap = one_port_cap(true);
    cap.ports[0].owner = Some(0);
    cap.ports[0].started = true;
    cap.ports[0].configured = true;
    let port = handle(&cap, true);
    port.close(&mut cap);
    assert_eq!(cap.ports[0].owner, None);
    assert!(!cap.ports[0].started);
    assert!(!cap.ports[0].configured);
}
