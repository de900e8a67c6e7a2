//! Runtime-handle creation, argument consumption and error codes.

use dpdk::eal::Eal;
use dpdk::error::ErrorCode;

#[test]
fn init_consumes_argument_prefix() {
    let mut args = vec![
        String::from("prog"),
        String::from("-c"),
        String::from("1"),
        String::from("app-flag"),
    ];
    let rt = Eal::new(&mut args, 3).unwrap();
    assert_eq!(args, vec![String::from("app-flag")]);
    assert!(!rt.setup_done);
    assert!(rt.garbage.is_empty());
}

#[test]
fn init_consumes_nothing_on_zero() {
    let mut args = vec![String::from("prog")];
    Eal::new(&mut args, 0).unwrap();
    assert_eq!(args, vec![String::from("prog")]);
}

#[test]
fn negative_init_status_is_an_error() {
    let mut args = vec![String::from("prog")];
    let err = Eal::new(&mut args, -22).unwrap_err();
    assert_eq!(err, ErrorCode::Unknown { code: 22 });
    assert_eq!(args.len(), 1);
}

#[test]
fn error_code_from_code_wraps_magnitude() {
    assert_eq!(ErrorCode::from_code(5), ErrorCode::Unknown { code: 5 });
}

#[test]
fn error_code_from_status_covers_the_byte_range() {
    assert_eq!(ErrorCode::from_status(-1), Some(ErrorCode::Unknown { code: 1 }));
    assert_eq!(ErrorCode::from_status(-255), Some(ErrorCode::Unknown { code: 255 }));
    assert_eq!(ErrorCode::from_status(0), None);
    assert_eq!(ErrorCode::from_status(7), None);
    assert_eq!(ErrorCode::from_status(-256), None);
}

#[test]
fn burst_basics() {
    let mut b = dpdk::burst::Burst::new(2);
    assert!(b.is_empty());
    assert_eq!(b.capacity(), 2);
    assert_eq!(b.remaining(), 2);
    assert!(b.pop().is_none());
}

#[test]
fn core_and_socket_ids_round_trip() {
    let lc = dpdk::ids::LCoreId::new(3);
    assert_eq!(lc.raw(), 3);
    let s = dpdk::ids::SocketId::new(1);
    assert_eq!(s.raw(), 1);
    assert_eq!(lc, dpdk::ids::LCoreId::new(3));
    assert_ne!(s, dpdk::ids::SocketId::new(2));
}

#[test]
fn core_table_lookups() {
    let cores = vec![
        dpdk::cap::CoreHw {
            lcore: dpdk::ids::LCoreId::new(0),
            socket: dpdk::ids::SocketId::new(0),
            enabled: true,
        },
        dpdk::cap::CoreHw {
            lcore: dpdk::ids::LCoreId::new(4),
            socket: dpdk::ids::SocketId::new(1),
            enabled: false,
        },
    ];
    let cap = dpdk::cap::CapState::discovered(cores, Vec::new());
    assert_eq!(
        cap.lcore_socket(dpdk::ids::LCoreId::new(4)),
        Some(dpdk::ids::SocketId::new(1))
    );
    assert_eq!(cap.lcore_socket(dpdk::ids::LCoreId::new(9)), None);
    assert!(cap.lcore_is_enabled(dpdk::ids::LCoreId::new(0)));
    assert!(!cap.lcore_is_enabled(dpdk::ids::LCoreId::new(4)));
    assert!(!cap.lcore_is_enabled(dpdk::ids::LCoreId::new(9)));
}
