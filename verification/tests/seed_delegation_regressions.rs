use ergot::interface_manager::profiles::router::{RegisterError, Router};
use ergot::interface_manager::{
    Interface, InterfaceSink, Payload, Profile, SeedAssignmentError, SeedLease, SetStateError,
};
use ergot::{Address, Header, ProtocolError};
use rand::SeedableRng;

#[derive(Clone)]
struct NullSink;

impl InterfaceSink for NullSink {
    fn sent(_: Self, _: Self, _: Header, _: Payload, _: bool) -> bool {
        unreachable!("only a specification")
    }
    fn spec_mtu(&self) -> u16 {
        unreachable!("only a specification")
    }
    fn mtu(&self) -> u16 {
        2048
    }

    fn send_ty(&mut self, _: &Header, _: &[u8]) -> Result<(), ()> {
        Ok(())
    }

    fn send_raw(&mut self, _: &Header, _: &[u8]) -> Result<(), ()> {
        Ok(())
    }

    fn send_err(&mut self, _: &Header, _: ProtocolError) -> Result<(), ()> {
        Ok(())
    }
}

struct MockInterface;

impl Interface for MockInterface {
    type Sink = NullSink;
}

type TestRouter = Router<MockInterface, rand::rngs::StdRng, 8, 8, 4>;

fn rng(seed: u8) -> rand::rngs::StdRng {
    rand::rngs::StdRng::from_seed([seed; 32])
}

#[test]
fn upstream_refresh_retry_after_lost_response_is_idempotent() {
    let mut root: TestRouter = Router::new(rng(1));
    let root_down = root.register_interface(NullSink).unwrap();
    let root_source_net = root.net_id_of(root_down).unwrap();

    let mut bridge: TestRouter = Router::new_bridge(rng(2), NullSink);
    let bridge_down = bridge.register_interface_pending(NullSink).unwrap();
    let bridge_link_assignment = root.request_seed_net_assign(root_source_net).unwrap();
    bridge.reassign_interface_net_id(bridge_down, bridge_link_assignment.net_id).unwrap();
    let bridge_source_net = bridge.net_id_of(bridge_down).unwrap();

    let parent_assignment = root.request_seed_net_assign(root_source_net).unwrap();
    let parent = SeedLease {
        net_id: parent_assignment.net_id,
        refresh_addr: Address {
            network_id: root_source_net,
            node_id: 1,
            port_id: 42,
        },
        release_addr: Address {
            network_id: root_source_net,
            node_id: 1,
            port_id: 43,
        },
        refresh_token: parent_assignment.refresh_token,
        expires_seconds: parent_assignment.expires_seconds,
        max_refresh_seconds: parent_assignment.max_refresh_seconds,
        min_refresh_seconds: parent_assignment.min_refresh_seconds,
    };
    let child_assignment = bridge.register_delegated_seed_net(bridge_source_net, &parent).unwrap();

    let prepared = bridge.prepare_delegated_refresh(
        bridge_source_net,
        child_assignment.net_id,
        child_assignment.refresh_token,
    ).unwrap();
    let ergot::interface_manager::DelegatedRefreshPreparation::Forward(prepared) = prepared else {
        panic!("the first refresh must be forwarded upstream");
    };
    let first_response = root.refresh_seed_net_assignment(root_source_net, prepared.net_id, prepared.refresh_token).unwrap();

    // Simulate losing that response (or cancelling the bridge handler) before
    // commit. After restart the bridge can only retry the old parent token.
    let prepared_after_restart = bridge.prepare_delegated_refresh(
        bridge_source_net,
        child_assignment.net_id,
        child_assignment.refresh_token,
    ).unwrap();
    let ergot::interface_manager::DelegatedRefreshPreparation::Forward(prepared_after_restart) =
        prepared_after_restart
    else {
        panic!("an uncommitted refresh must still be forwarded after restart");
    };
    let retry = root.refresh_seed_net_assignment(
        root_source_net,
        prepared_after_restart.net_id,
        prepared_after_restart.refresh_token,
    );

    assert_eq!(
        retry,
        Ok(first_response),
        "retrying after a lost refresh response must be idempotent"
    );
}

#[test]
fn replay_reports_actual_remaining_lease_time() {
    let mut root: TestRouter = Router::new(rng(8));
    let down = root.register_interface(NullSink).unwrap();
    let source_net = root.net_id_of(down).unwrap();
    let initial = root.request_seed_net_assign(source_net).unwrap();
    let refreshed = root.refresh_seed_net_assignment(source_net, initial.net_id, initial.refresh_token).unwrap();

    let later = root.clock.now() + 1_100 * 1_000_000;

    let replay = root
        .state
        .refresh_seed_net_assignment(source_net, initial.net_id, initial.refresh_token, later, 0)
        .unwrap();
    assert_eq!(replay.refresh_token, refreshed.refresh_token);
    assert!(
        replay.expires_seconds < refreshed.expires_seconds,
        "a replay must not restart the downstream's 120-second clock"
    );
}

#[test]
fn delegation_rejects_a_hop_that_would_exhaust_the_refresh_margin() {
    let mut bridge: TestRouter = Router::new_bridge(rng(3), NullSink);
    let bridge_down = bridge.register_interface_pending(NullSink).unwrap();
    bridge.reassign_interface_net_id(bridge_down, 1).unwrap();
    let source_net = bridge.net_id_of(bridge_down).unwrap();
    let parent = SeedLease {
        net_id: 42,
        refresh_addr: Address {
            network_id: 1,
            node_id: 1,
            port_id: 42,
        },
        release_addr: Address {
            network_id: 1,
            node_id: 1,
            port_id: 43,
        },
        refresh_token: [0xAA; 8],
        expires_seconds: 120,
        max_refresh_seconds: 120,
        min_refresh_seconds: 5,
    };

    assert_eq!(
        bridge.register_delegated_seed_net(source_net, &parent),
        Err(SeedAssignmentError::DelegationDepthExceeded)
    );
}

#[test]
fn bridge_requires_pending_root_assigned_downlinks() {
    let mut bridge: TestRouter = Router::new_bridge(rng(4), NullSink);
    assert_eq!(
        bridge.register_interface(NullSink),
        Err(RegisterError::BridgeRequiresSeedAssignment)
    );

    let pending = bridge.register_interface_pending(NullSink).unwrap();
    assert_eq!(bridge.net_id_of(pending), Some(0));
}

#[test]
fn bridge_rejects_zero_source_and_local_seed_allocation() {
    let mut bridge: TestRouter = Router::new_bridge(rng(5), NullSink);
    let pending = bridge.register_interface_pending(NullSink).unwrap();

    assert_eq!(
        bridge.can_delegate_seed(0),
        Err(SeedAssignmentError::UnknownSource)
    );
    assert_eq!(
        bridge.request_seed_net_assign(0),
        Err(SeedAssignmentError::ProfileCantSeed)
    );

    bridge.reassign_interface_net_id(pending, 7).unwrap();
    let colliding_parent = SeedLease {
        net_id: 7,
        refresh_addr: Address {
            network_id: 1,
            node_id: 1,
            port_id: 42,
        },
        release_addr: Address {
            network_id: 1,
            node_id: 1,
            port_id: 43,
        },
        refresh_token: [0xBB; 8],
        expires_seconds: 120,
        max_refresh_seconds: 120,
        min_refresh_seconds: 62,
    };
    assert_eq!(
        bridge.register_delegated_seed_net(7, &colliding_parent),
        Err(SeedAssignmentError::NetIdCollision)
    );

    let other = bridge.register_interface_pending(NullSink).unwrap();
    assert_eq!(
        bridge.reassign_interface_net_id(other, 7),
        Err(SetStateError::NetIdInUse)
    );
}

