use io_engine::child_state::{ChildState, FaultReason};
use io_engine::grpc::{
    default_endpoint_str, default_port, endpoint_str, grpc_timeout_nanos, node_name,
};
use io_engine::wipe::{Resource, WipeMethod};

#[test]
fn default_endpoint_values() {
    assert_eq!(default_port(), 10124);
    assert_eq!(default_endpoint_str(), "0.0.0.0:10124");
}

#[test]
fn endpoint_gets_the_default_port_when_missing() {
    assert_eq!(endpoint_str("1.2.3.4".to_string()), "1.2.3.4:10124");
    assert_eq!(endpoint_str("1.2.3.4:5678".to_string()), "1.2.3.4:5678");
    assert_eq!(endpoint_str("::1".to_string()), "::1");
}

#[test]
fn node_name_prefers_the_given_name() {
    assert_eq!(
        node_name(&Some("node-a".to_string()), Some("host-b".to_string())),
        "node-a"
    );
    assert_eq!(node_name(&None, Some("host-b".to_string())), "host-b");
    assert_eq!(node_name(&None, None), "mayastor-node");
}

#[test]
fn timeout_header_units() {
    assert_eq!(grpc_timeout_nanos(None), 15_000_000_000);
    assert_eq!(grpc_timeout_nanos(Some("10S")), 10_000_000_000);
    assert_eq!(grpc_timeout_nanos(Some("5M")), 300_000_000_000);
    assert_eq!(grpc_timeout_nanos(Some("2H")), 7_200_000_000_000);
    assert_eq!(grpc_timeout_nanos(Some("100m")), 100_000_000);
    assert_eq!(grpc_timeout_nanos(Some("7u")), 7_000);
    assert_eq!(grpc_timeout_nanos(Some("9n")), 9);
}

#[test]
fn timeout_header_malformed_means_default() {
    let default = 15_000_000_000u128;
    assert_eq!(grpc_timeout_nanos(Some("")), default);
    assert_eq!(grpc_timeout_nanos(Some("S")), default);
    assert_eq!(grpc_timeout_nanos(Some("12")), default);
    assert_eq!(grpc_timeout_nanos(Some("abcS")), default);
    assert_eq!(grpc_timeout_nanos(Some("5X")), default);
    assert_eq!(grpc_timeout_nanos(Some("-5S")), default);
    // Overflows a u64: parsing fails, the default applies.
    assert_eq!(grpc_timeout_nanos(Some("99999999999999999999S")), default);
}

#[test]
fn timeout_header_accepts_a_leading_plus() {
    assert_eq!(grpc_timeout_nanos(Some("+3S")), 3_000_000_000);
}

#[test]
fn wipe_resources_and_methods() {
    assert_eq!(Resource::resources(), vec!["replica".to_string()]);
    assert_eq!(
        WipeMethod::methods(),
        vec![
            "None".to_string(),
            "WriteZeroes".to_string(),
            "Unmap".to_string(),
            "WritePattern".to_string(),
        ]
    );
    assert_eq!(Resource::Replica, Resource::Replica);
    assert_ne!(WipeMethod::NoWipe, WipeMethod::Unmap);
}

#[test]
fn fault_reasons_classify_as_documented() {
    for r in [
        FaultReason::NoSpace,
        FaultReason::TimedOut,
        FaultReason::IoError,
        FaultReason::Offline,
        FaultReason::AdminCommandFailed,
        FaultReason::RebuildFailed,
    ] {
        assert!(r.is_recoverable(), "{r:?} should be recoverable");
    }
    for r in [FaultReason::Unknown, FaultReason::CantOpen, FaultReason::OfflinePermanent] {
        assert!(!r.is_recoverable(), "{r:?} should be permanent");
    }
}

#[test]
fn child_states_classify_as_documented() {
    assert!(ChildState::Open.is_open_or_init());
    assert!(ChildState::Init.is_open_or_init());
    assert!(ChildState::ConfigInvalid.is_open_or_init());
    assert!(!ChildState::Closed.is_open_or_init());
    assert!(ChildState::Closed.is_recoverable());
    assert!(ChildState::Faulted(FaultReason::IoError).is_recoverable());
    assert!(!ChildState::Faulted(FaultReason::CantOpen).is_recoverable());
    assert!(!ChildState::Open.is_recoverable());
    assert!(ChildState::Faulted(FaultReason::NoSpace).is_enospc());
    assert!(!ChildState::Faulted(FaultReason::IoError).is_enospc());
    assert!(!ChildState::Open.is_enospc());
}
