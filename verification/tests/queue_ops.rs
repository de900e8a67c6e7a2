//! Burst receive and transmit against the modeled wire.

use dpdk::burst::Burst;
use dpdk::cap::{CapState, DescLimits, PortHw};
use dpdk::eal::Eal;
use dpdk::ids::SocketId;
use dpdk::port::Port;
use dpdk::queue::TxQ;
use dpdk::stats::PortStat;

fn limits() -> DescLimits {
    DescLimits { nb_max: 4096, nb_min: 32, nb_align: 32 }
}

fn one_port(port_id: u16, socket: u32) -> PortHw {
    PortHw::discovered(
        port_id,
        SocketId::new(socket),
        [0x02, 0, 0, 0, 0, port_id as u8],
        16,
        16,
        limits(),
        limits(),
        0,
        0,
        true,
    )
}

fn port_handle(idx: usize, cap: &CapState) -> Port {
    Port {
        port_id: cap.ports[idx].port_id,
        port_idx: idx,
        socket: cap.ports[idx].socket,
        owner_id: 0,
        has_stats_reset: true,
        prev_stat: PortStat::zeroed(),
    }
}

#[test]
fn tx_always_leaves_buffer_empty() {
    let mut cap = CapState::discovered(Vec::new(), vec![one_port(0, 0)]);
    let mut args: Vec<String> = Vec::new();
    let rt = Eal::new(&mut args, 0).unwrap();
    let pool = rt.create_mpool(&mut cap, 1, 64, 0, 2048, None);
    let mut burst = Burst::new(5);
    assert!(pool.alloc_bulk(&mut cap, &mut burst));
    // The hardware accepts only three of the five packets.
    cap.grant_tx(0, 3);
    let txq = TxQ { queue_id: 0, port: port_handle(0, &cap) };
    txq.tx(&mut cap, &mut burst);
    assert_eq!(burst.len(), 0);
    assert_eq!(cap.ports[0].inbound.len(), 3);
    // Sent or not, every packet went back to its pool.
    assert_eq!(cap.pools[0].outstanding, 0);
    assert_eq!(cap.ports[0].raw_stat.opackets, 3);
    assert_eq!(cap.ports[0].tx_budget, 0);
}

#[test]
fn tx_with_zero_budget_still_drains() {
    let mut cap = CapState::discovered(Vec::new(), vec![one_port(0, 0)]);
    let mut args: Vec<String> = Vec::new();
    let rt = Eal::new(&mut args, 0).unwrap();
    let pool = rt.create_mpool(&mut cap, 1, 8, 0, 2048, None);
    let mut burst = Burst::new(4);
    assert!(pool.alloc_bulk(&mut cap, &mut burst));
    let txq = TxQ { queue_id: 0, port: port_handle(0, &cap) };
    txq.tx(&mut cap, &mut burst);
    assert_eq!(burst.len(), 0);
    assert_eq!(cap.ports[0].inbound.len(), 0);
    assert_eq!(cap.pools[0].outstanding, 0);
    assert_eq!(cap.ports[0].raw_stat.opackets, 0);
}

#[test]
fn tx_carries_packet_data_onto_wire() {
    let mut cap = CapState::discovered(Vec::new(), vec![one_port(0, 0)]);
    let mut args: Vec<String> = Vec::new();
    let rt = Eal::new(&mut args, 0).unwrap();
    let pool = rt.create_mpool(&mut cap, 1, 8, 0, 2048, None);
    let mut burst = Burst::new(1);
    let mut pkt = pool.allocate(&mut cap).unwrap();
    pkt.set_len(3);
    pkt.write_byte(0, 10);
    pkt.write_byte(1, 20);
    pkt.write_byte(2, 30);
    burst.push(pkt);
    cap.grant_tx(0, 1);
    let txq = TxQ { queue_id: 0, port: port_handle(0, &cap) };
    txq.tx(&mut cap, &mut burst);
    assert_eq!(cap.ports[0].inbound, vec![vec![10, 20, 30]]);
}

#[test]
fn tx_cloned_keeps_the_buffer() {
    let mut cap = CapState::discovered(Vec::new(), vec![one_port(0, 0)]);
    let mut args: Vec<String> = Vec::new();
    let rt = Eal::new(&mut args, 0).unwrap();
    let pool = rt.create_mpool(&mut cap, 1, 8, 0, 2048, None);
    let mut burst = Burst::new(4);
    assert!(pool.alloc_bulk(&mut cap, &mut burst));
    cap.grant_tx(0, 2);
    let txq = TxQ { queue_id: 0, port: port_handle(0, &cap) };
    txq.tx_cloned(&mut cap, &burst);
    // The caller still owns all four packets; two copies went out.
    assert_eq!(burst.len(), 4);
    assert_eq!(cap.pools[0].outstanding, 4);
    assert_eq!(cap.ports[0].inbound.len(), 2);
    assert_eq!(cap.ports[0].raw_stat.opackets, 2);
    while let Some(p) = burst.pop() {
        cap.free_packet(p);
    }
}

#[test]
fn rx_on_idle_wire_receives_nothing() {
    let mut cap = CapState::discovered(Vec::new(), vec![one_port(0, 0)]);
    let mut args: Vec<String> = Vec::new();
    let mut rt = Eal::new(&mut args, 0).unwrap();
    let m = rt
        .setup(
            &mut cap,
            dpdk::plan::Affinity::Full,
            dpdk::plan::Affinity::Full,
        )
        .unwrap();
    // No enabled cores were discovered, so no queues exist and no entry
    // was created; receiving is simply never possible here.
    assert!(m.is_empty());
}

#[test]
fn rx_appends_waiting_frames() {
    let cores = vec![dpdk::cap::CoreHw {
        lcore: dpdk::ids::LCoreId::new(0),
        socket: SocketId::new(0),
        enabled: true,
    }];
    let mut cap = CapState::discovered(cores, vec![one_port(0, 0)]);
    let mut args: Vec<String> = Vec::new();
    let mut rt = Eal::new(&mut args, 0).unwrap();
    let m = rt
        .setup(
            &mut cap,
            dpdk::plan::Affinity::Full,
            dpdk::plan::Affinity::Full,
        )
        .unwrap();
    assert_eq!(m.len(), 1);
    let (_lc, rxqs, _txqs) = &m[0];
    let rxq = &rxqs[0];
    cap.inject_frame(0, vec![1, 2, 3]);
    cap.inject_frame(0, vec![4, 5]);
    let mut buf = Burst::new(8);
    rxq.rx(&mut cap, &mut buf);
    assert_eq!(buf.len(), 2);
    assert_eq!(buf.get(0).data_vec(), vec![1, 2, 3]);
    assert_eq!(buf.get(1).data_vec(), vec![4, 5]);
    assert_eq!(cap.ports[0].raw_stat.ipackets, 2);
    assert!(cap.ports[0].inbound.is_empty());
    // An immediate second call finds nothing: zero is backpressure, not
    // an error.
    rxq.rx(&mut cap, &mut buf);
    assert_eq!(buf.len(), 2);
}

#[test]
fn loopback_burst_is_fully_received() {
    // One port, two enabled cores under Full affinity: transmit a burst of
    // 32 packets on one core's queue, receive on the other core's queue,
    // with a few unrelated background frames on the wire.
    let cores = vec![
        dpdk::cap::CoreHw {
            lcore: dpdk::ids::LCoreId::new(0),
            socket: SocketId::new(0),
            enabled: true,
        },
        dpdk::cap::CoreHw {
            lcore: dpdk::ids::LCoreId::new(1),
            socket: SocketId::new(0),
            enabled: true,
        },
    ];
    let mut cap = CapState::discovered(cores, vec![one_port(0, 0)]);
    let mut args: Vec<String> = Vec::new();
    let mut rt = Eal::new(&mut args, 0).unwrap();
    let default_pool = rt.create_mpool(&mut cap, 5, 64, 0, 2048, None);
    let m = rt
        .setup(
            &mut cap,
            dpdk::plan::Affinity::Full,
            dpdk::plan::Affinity::Full,
        )
        .unwrap();
    assert_eq!(m.len(), 2);
    let tx_entry = m.iter().find(|e| e.0.raw() == 0).unwrap();
    let rx_entry = m.iter().find(|e| e.0.raw() == 1).unwrap();
    let txq = &tx_entry.2[0];
    let rxq = &rx_entry.1[0];

    cap.inject_frame(0, vec![0xBB; 60]);
    cap.inject_frame(0, vec![0xBB; 60]);
    cap.inject_frame(0, vec![0xBB; 60]);

    let mut pkts = Burst::new(dpdk::DEFAULT_TX_BURST);
    assert!(default_pool.alloc_bulk(&mut cap, &mut pkts));
    for i in 0..pkts.len() {
        let pkt = pkts.get_mut(i);
        pkt.set_len(42);
        pkt.write_byte(0, 0xFF);
    }
    cap.grant_tx(0, dpdk::DEFAULT_TX_BURST);
    txq.tx(&mut cap, &mut pkts);
    assert_eq!(pkts.len(), 0);

    let mut rxbuf = Burst::new(dpdk::DEFAULT_TX_BURST * 2);
    loop {
        let before = rxbuf.len();
        rxq.rx(&mut cap, &mut rxbuf);
        if rxbuf.len() == before {
            break;
        }
    }
    // All 32 transmitted packets arrived, plus the 3 background frames.
    assert!(rxbuf.len() >= dpdk::DEFAULT_TX_BURST);
    assert_eq!(rxbuf.len(), dpdk::DEFAULT_TX_BURST + 3);
    assert_eq!(rxbuf.get(3).len(), 42);
    assert_eq!(rxbuf.get(3).data_byte(0), 0xFF);
}
