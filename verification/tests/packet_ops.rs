//! Packet length mutations and byte access.

use dpdk::cap::CapState;
use dpdk::eal::Eal;
use dpdk::packet::Packet;
use dpdk::DEFAULT_HEADROOM;

fn one_packet() -> (CapState, Packet) {
    let mut cap = CapState::discovered(Vec::new(), Vec::new());
    let mut args: Vec<String> = Vec::new();
    let rt = Eal::new(&mut args, 0).unwrap();
    let pool = rt.create_mpool(&mut cap, 1, 4, 0, 2048, None);
    let pkt = pool.allocate(&mut cap).unwrap();
    (cap, pkt)
}

#[test]
fn set_len_then_len_returns_it() {
    let (_cap, mut pkt) = one_packet();
    pkt.set_len(100);
    assert_eq!(pkt.len(), 100);
    pkt.set_len(0);
    assert_eq!(pkt.len(), 0);
    assert!(pkt.is_empty());
    // The largest length the data region can take from the default headroom.
    let max = pkt.capacity() - DEFAULT_HEADROOM;
    pkt.set_len(max);
    assert_eq!(pkt.len(), max);
}

#[test]
fn bytes_written_are_read_back() {
    let (_cap, mut pkt) = one_packet();
    pkt.set_len(4);
    pkt.write_byte(0, 0xDE);
    pkt.write_byte(1, 0xAD);
    pkt.write_byte(2, 0xBE);
    pkt.write_byte(3, 0xEF);
    assert_eq!(pkt.data_byte(0), 0xDE);
    assert_eq!(pkt.data_byte(1), 0xAD);
    assert_eq!(pkt.data_byte(2), 0xBE);
    assert_eq!(pkt.data_byte(3), 0xEF);
    assert_eq!(pkt.data_vec(), vec![0xDE, 0xAD, 0xBE, 0xEF]);
    assert_eq!(pkt.buffer_byte(2), 0xBE);
}

#[test]
fn trim_head_skips_leading_bytes() {
    let (_cap, mut pkt) = one_packet();
    pkt.set_len(4);
    pkt.write_byte(0, 1);
    pkt.write_byte(1, 2);
    pkt.write_byte(2, 3);
    pkt.write_byte(3, 4);
    pkt.trim_head(2);
    assert_eq!(pkt.len(), 2);
    assert_eq!(pkt.data_vec(), vec![3, 4]);
}

#[test]
fn trim_tail_drops_trailing_bytes() {
    let (_cap, mut pkt) = one_packet();
    pkt.set_len(4);
    pkt.write_byte(0, 1);
    pkt.write_byte(1, 2);
    pkt.write_byte(2, 3);
    pkt.write_byte(3, 4);
    pkt.trim_tail(3);
    assert_eq!(pkt.len(), 1);
    assert_eq!(pkt.data_vec(), vec![1]);
}

#[test]
fn prepend_grows_into_headroom() {
    let (_cap, mut pkt) = one_packet();
    pkt.set_len(1);
    pkt.write_byte(0, 42);
    pkt.prepend(2);
    assert_eq!(pkt.len(), 3);
    // The former first byte now sits behind the two prepended ones.
    assert_eq!(pkt.data_byte(2), 42);
}

#[test]
fn reset_headroom_restores_offset() {
    let (_cap, mut pkt) = one_packet();
    pkt.set_len(8);
    pkt.trim_head(5);
    pkt.reset_headroom();
    assert_eq!(pkt.len(), 3);
    pkt.prepend(DEFAULT_HEADROOM);
    assert_eq!(pkt.len(), 3 + DEFAULT_HEADROOM);
}

#[test]
fn append_grows_into_tailroom() {
    let (_cap, mut pkt) = one_packet();
    pkt.set_len(2);
    pkt.append(3);
    assert_eq!(pkt.len(), 5);
}
