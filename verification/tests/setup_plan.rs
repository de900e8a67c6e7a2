//! Setup orchestration: one-shot behavior, stable assignment, NUMA locality.

use dpdk::cap::{CapState, CoreHw, DescLimits, PortHw};
use dpdk::eal::Eal;
use dpdk::error::ErrorCode;
use dpdk::ids::{LCoreId, SocketId};
use dpdk::plan::{compute_candidates, Affinity};
use dpdk::setup::setup_supported;

fn limits() -> DescLimits {
    DescLimits { nb_max: 4096, nb_min: 32, nb_align: 32 }
}

fn mk_core(id: u32, socket: u32, enabled: bool) -> CoreHw {
    CoreHw { lcore: LCoreId::new(id), socket: SocketId::new(socket), enabled }
}

fn port(port_id: u16, socket: u32) -> PortHw {
    PortHw::discovered(
        port_id,
        SocketId::new(socket),
        [0x02, 0, 0, 0, 0, port_id as u8],
        16,
        16,
        limits(),
        limits(),
        0,
        0,
        true,
    )
}

fn runtime() -> Eal {
    let mut args: Vec<String> = Vec::new();
    Eal::new(&mut args, 0).unwrap()
}

#[test]
fn setup_twice_returns_already_initialized() {
    let cores = vec![mk_core(0, 0, true)];
    let mut cap = CapState::discovered(cores, vec![port(0, 0)]);
    let mut rt = runtime();
    let first = rt.setup(&mut cap, Affinity::Full, Affinity::Full);
    assert!(first.is_ok());
    let pools_after_first = cap.pools.len();
    let second = rt.setup(&mut cap, Affinity::Full, Affinity::Full);
    assert_eq!(second.unwrap_err(), ErrorCode::AlreadyInitialized);
    // The failed call performed no additional hardware configuration.
    assert_eq!(cap.pools.len(), pools_after_first);
}

#[test]
fn setup_assigns_stable_queue_indices() {
    // Enabled cores 0 and 2 (core 1 disabled): under Full affinity the
    // first candidate gets queue 0, the second queue 1.
    let cores = vec![mk_core(0, 0, true), mk_core(1, 0, false), mk_core(2, 0, true)];
    let mut cap = CapState::discovered(cores, vec![port(7, 0)]);
    let mut rt = runtime();
    let m = rt.setup(&mut cap, Affinity::Full, Affinity::Full).unwrap();
    assert_eq!(m.len(), 2);
    for (lc, rxqs, txqs) in &m {
        // Only cores reported enabled appear in the mapping.
        assert!(lc.raw() == 0 || lc.raw() == 2);
        assert_eq!(rxqs.len(), 1);
        assert_eq!(txqs.len(), 1);
        let expected_q = if lc.raw() == 0 { 0 } else { 1 };
        assert_eq!(rxqs[0].queue_id(), expected_q);
        assert_eq!(txqs[0].queue_id(), expected_q);
        assert_eq!(rxqs[0].port().port_id(), 7);
        assert_eq!(txqs[0].port().port_id(), 7);
    }
}

#[test]
fn setup_numa_local_keeps_queues_on_their_node() {
    let cores = vec![mk_core(0, 0, true), mk_core(1, 1, true)];
    let ports = vec![port(0, 0), port(1, 1)];
    let mut cap = CapState::discovered(cores, ports);
    let mut rt = runtime();
    let m = rt.setup(&mut cap, Affinity::Numa, Affinity::Numa).unwrap();
    assert_eq!(m.len(), 2);
    for (lc, rxqs, txqs) in &m {
        assert_eq!(rxqs.len(), 1);
        assert_eq!(txqs.len(), 1);
        // Every queue's port sits on the very node of its core.
        let core_socket = lc.raw();
        assert_eq!(rxqs[0].port().socket_id().raw(), core_socket);
        assert_eq!(txqs[0].port().socket_id().raw(), core_socket);
    }
}

#[test]
fn setup_numa_with_empty_candidate_set_succeeds() {
    // A port on a node with no enabled cores legitimately gets no queues.
    let cores = vec![mk_core(0, 0, true)];
    let ports = vec![port(0, 0), port(1, 9)];
    let mut cap = CapState::discovered(cores, ports);
    let mut rt = runtime();
    let m = rt.setup(&mut cap, Affinity::Numa, Affinity::Numa).unwrap();
    assert_eq!(m.len(), 1);
    let (lc, rxqs, txqs) = &m[0];
    assert_eq!(lc.raw(), 0);
    assert_eq!(rxqs.len(), 1);
    assert_eq!(txqs.len(), 1);
    assert_eq!(rxqs[0].port().port_id(), 0);
    // The empty-candidate port was still configured and started.
    assert!(cap.ports[1].started);
    assert_eq!(cap.ports[1].n_rxq, 0);
}

#[test]
fn setup_creates_one_dedicated_pool_per_rx_queue() {
    let cores = vec![mk_core(0, 0, true), mk_core(1, 0, true)];
    let mut cap = CapState::discovered(cores, vec![port(0, 0)]);
    let mut rt = runtime();
    let m = rt.setup(&mut cap, Affinity::Full, Affinity::Full).unwrap();
    assert_eq!(cap.pools.len(), 2);
    for pool in &cap.pools {
        assert_eq!(pool.capacity, dpdk::DEFAULT_RX_POOL_SIZE);
        assert_eq!(pool.data_room, dpdk::DEFAULT_PACKET_DATA_LENGTH);
        assert_eq!(pool.socket, Some(SocketId::new(0)));
        assert_eq!(pool.outstanding, 0);
        assert!(!pool.released);
    }
    // Each mapping entry's receive queue owns one of those pools.
    let mut seen: Vec<usize> = m.iter().map(|e| e.1[0].pool.pool).collect();
    seen.sort();
    assert_eq!(seen, vec![0, 1]);
}

#[test]
fn setup_marks_ports_owned_and_started() {
    let cores = vec![mk_core(0, 0, true)];
    let mut cap = CapState::discovered(cores, vec![port(0, 0), port(1, 0)]);
    let mut rt = runtime();
    rt.setup(&mut cap, Affinity::Full, Affinity::Full).unwrap();
    assert_eq!(cap.ports[0].owner, Some(0));
    assert_eq!(cap.ports[1].owner, Some(1));
    assert!(cap.ports[0].configured && cap.ports[0].started);
    assert!(cap.ports[1].configured && cap.ports[1].started);
    assert!(cap.ports[0].promiscuous);
    // A single receive queue does not enable receive-side scaling.
    assert!(!cap.ports[0].rss_enabled);
}

#[test]
fn setup_enables_rss_with_multiple_rx_queues() {
    let cores = vec![mk_core(0, 0, true), mk_core(1, 0, true)];
    let mut cap = CapState::discovered(cores, vec![port(0, 0)]);
    let mut rt = runtime();
    rt.setup(&mut cap, Affinity::Full, Affinity::Full).unwrap();
    assert!(cap.ports[0].rss_enabled);
    assert_eq!(cap.ports[0].n_rxq, 2);
    assert_eq!(cap.ports[0].n_txq, 2);
}

#[test]
fn setup_enables_advertised_offloads_only() {
    let cores = vec![mk_core(0, 0, true)];
    let mut p = port(0, 0);
    p.rx_offload_capa = dpdk::RX_OFFLOAD_CHECKSUM;
    p.tx_offload_capa = dpdk::TX_OFFLOAD_IPV4_CKSUM | dpdk::TX_OFFLOAD_TCP_CKSUM;
    let mut cap = CapState::discovered(cores, vec![p]);
    let mut rt = runtime();
    rt.setup(&mut cap, Affinity::Full, Affinity::Full).unwrap();
    assert_eq!(cap.ports[0].rx_offloads, dpdk::RX_OFFLOAD_CHECKSUM);
    assert_eq!(
        cap.ports[0].tx_offloads,
        dpdk::TX_OFFLOAD_IPV4_CKSUM | dpdk::TX_OFFLOAD_TCP_CKSUM
    );
}

#[test]
fn planner_full_takes_every_enabled_core() {
    let cores = vec![mk_core(0, 0, true), mk_core(1, 1, true), mk_core(2, 0, false)];
    let cand = compute_candidates(&cores, Affinity::Full, SocketId::new(0));
    let ids: Vec<u32> = cand.iter().map(|c| c.lcore.raw()).collect();
    assert_eq!(ids, vec![0, 1]);
}

#[test]
fn planner_numa_takes_only_local_cores() {
    let cores = vec![mk_core(0, 0, true), mk_core(1, 1, true), mk_core(2, 0, true)];
    let cand = compute_candidates(&cores, Affinity::Numa, SocketId::new(0));
    let ids: Vec<u32> = cand.iter().map(|c| c.lcore.raw()).collect();
    assert_eq!(ids, vec![0, 2]);
}

#[test]
fn setup_supported_accepts_sane_configurations() {
    let cores = vec![mk_core(0, 0, true), mk_core(1, 0, true)];
    let cap = CapState::discovered(cores, vec![port(0, 0)]);
    assert!(setup_supported(&cap, Affinity::Full, Affinity::Full));
}

#[test]
fn setup_supported_rejects_too_few_hardware_queues() {
    let cores = vec![mk_core(0, 0, true), mk_core(1, 0, true), mk_core(2, 0, true)];
    let mut p = port(0, 0);
    p.max_rx_queues = 2;
    let cap = CapState::discovered(cores, vec![p]);
    assert!(!setup_supported(&cap, Affinity::Full, Affinity::Full));
}

#[test]
fn setup_supported_rejects_misaligned_descriptor_rings() {
    let cores = vec![mk_core(0, 0, true)];
    let mut p = port(0, 0);
    p.rx_desc_lim = DescLimits { nb_max: 4096, nb_min: 32, nb_align: 48 };
    let cap = CapState::discovered(cores, vec![p]);
    assert!(!setup_supported(&cap, Affinity::Full, Affinity::Full));
}

#[test]
fn setup_supported_rejects_duplicate_port_ids() {
    let cores = vec![mk_core(0, 0, true)];
    let cap = CapState::discovered(cores, vec![port(3, 0), port(3, 0)]);
    assert!(!setup_supported(&cap, Affinity::Full, Affinity::Full));
}
