use serve_core::permissions::PermissionStep;
use serve_core::serve::{
    begin_provisioning, continue_provisioning, serve, LaunchAction, LaunchEvent, LaunchPhase, Provisioning,
};
use serve_core::{Endpoint, UnixDomainSocket};

fn unix(mode: Option<u32>, owner: Option<&str>, group: Option<&str>) -> Endpoint {
    Endpoint::Unix(UnixDomainSocket {
        path: "/run/app.sock".to_string(),
        mode,
        owner: owner.map(str::to_string),
        group: group.map(str::to_string),
    })
}

fn bound(local: Option<&str>) -> LaunchEvent {
    LaunchEvent::Bound { local: local.map(str::to_string) }
}

#[test]
fn network_endpoint_is_bound_first() {
    let (launch, first) = serve(&Endpoint::Inet("127.0.0.1:0".to_string()));
    assert_eq!(first, LaunchAction::BindInet { address: "127.0.0.1:0".to_string() });
    assert_eq!(launch.phase(), LaunchPhase::Binding);
}

#[test]
fn unix_endpoint_is_bound_first() {
    let (launch, first) = serve(&unix(Some(0o600), None, None));
    assert_eq!(first, LaunchAction::BindUnix { path: "/run/app.sock".to_string() });
    assert_eq!(launch.phase(), LaunchPhase::Binding);
}

#[test]
fn bound_network_listener_is_announced_with_its_address() {
    let (mut launch, _) = serve(&Endpoint::Inet("127.0.0.1:0".to_string()));
    assert_eq!(
        launch.step(bound(Some("127.0.0.1:49152"))),
        LaunchAction::Listen { address: Some("127.0.0.1:49152".to_string()), socket_file: false }
    );
    assert_eq!(launch.phase(), LaunchPhase::Listening);
}

#[test]
fn bound_network_listener_without_known_address_is_announced_without() {
    let (mut launch, _) = serve(&Endpoint::Inet("localhost:80".to_string()));
    assert_eq!(launch.step(bound(None)), LaunchAction::Listen { address: None, socket_file: false });
}

#[test]
fn network_bind_failure_is_fatal() {
    let (mut launch, _) = serve(&Endpoint::Inet("127.0.0.1:80".to_string()));
    assert_eq!(
        launch.step(LaunchEvent::BindFailed { cause: "Address already in use (os error 98)".to_string() }),
        LaunchAction::Fail {
            error: "failed to bind to address '127.0.0.1:80': Address already in use (os error 98)".to_string(),
            remove_socket_file: false,
        }
    );
    assert_eq!(launch.phase(), LaunchPhase::Failed);
}

#[test]
fn unix_bind_failure_is_fatal_and_leaves_nothing() {
    let (mut launch, _) = serve(&unix(None, None, None));
    assert_eq!(
        launch.step(LaunchEvent::BindFailed { cause: "Permission denied (os error 13)".to_string() }),
        LaunchAction::Fail {
            error: "failed to bind to Unix domain socket path '/run/app.sock': Permission denied (os error 13)"
                .to_string(),
            remove_socket_file: false,
        }
    );
    assert_eq!(launch.phase(), LaunchPhase::Failed);
}

#[test]
fn bound_socket_with_mode_0600_is_provisioned_with_those_bits_last() {
    let (mut launch, _) = serve(&unix(Some(0o600), None, None));
    assert_eq!(
        launch.step(bound(None)),
        LaunchAction::Provision {
            path: "/run/app.sock".to_string(),
            steps: vec![
                PermissionStep::ChangeOwner { uid: None, gid: None },
                PermissionStep::ChangeMode { mode: 0o600 },
            ],
        }
    );
    assert_eq!(launch.phase(), LaunchPhase::Provisioning);
    assert_eq!(launch.step(LaunchEvent::Provisioned), LaunchAction::Listen { address: None, socket_file: true });
    assert_eq!(launch.phase(), LaunchPhase::Listening);
}

#[test]
fn bound_socket_ignores_a_reported_address() {
    let (mut launch, _) = serve(&unix(None, Some("12"), Some("34")));
    assert_eq!(
        launch.step(bound(Some("ignored"))),
        LaunchAction::Provision {
            path: "/run/app.sock".to_string(),
            steps: vec![PermissionStep::ChangeOwner { uid: Some(12), gid: Some(34) }],
        }
    );
    assert_eq!(launch.step(LaunchEvent::Provisioned), LaunchAction::Listen { address: None, socket_file: true });
}

#[test]
fn owner_that_does_not_exist_fails_the_start_and_removes_the_socket() {
    let (mut launch, _) = serve(&unix(Some(0o600), Some("no-such-account-7f3a9c51e2"), None));
    match launch.step(bound(None)) {
        LaunchAction::Fail { error, remove_socket_file } => {
            assert!(remove_socket_file);
            assert!(error.contains("/run/app.sock"), "{error}");
            assert!(error.contains("user 'no-such-account-7f3a9c51e2' not found"), "{error}");
        }
        other => panic!("the start went on: {other:?}"),
    }
    assert_eq!(launch.phase(), LaunchPhase::Failed);
    let (mut again, first) = serve(&unix(Some(0o600), None, None));
    assert_eq!(first, LaunchAction::BindUnix { path: "/run/app.sock".to_string() });
    assert!(matches!(again.step(bound(None)), LaunchAction::Provision { .. }));
}

#[test]
fn owner_name_with_nul_fails_the_start_with_the_exact_error() {
    let (mut launch, _) = serve(&unix(None, Some("a\u{0}"), None));
    assert_eq!(
        launch.step(bound(None)),
        LaunchAction::Fail {
            error: "Failed to change owner and group of '/run/app.sock': user 'a\u{0}' not found".to_string(),
            remove_socket_file: true,
        }
    );
}

#[test]
fn refused_ownership_change_fails_the_start() {
    let (mut launch, _) = serve(&unix(Some(0o600), Some("0"), None));
    launch.step(bound(None));
    let event = LaunchEvent::ProvisionFailed {
        step: PermissionStep::ChangeOwner { uid: Some(0), gid: None },
        cause: "Operation not permitted (os error 1)".to_string(),
    };
    assert_eq!(
        launch.step(event),
        LaunchAction::Fail {
            error: "Failed to change owner and group of '/run/app.sock': Operation not permitted (os error 1)"
                .to_string(),
            remove_socket_file: true,
        }
    );
    assert_eq!(launch.phase(), LaunchPhase::Failed);
}

#[test]
fn refused_mode_change_fails_the_start() {
    let (mut launch, _) = serve(&unix(Some(0o600), None, None));
    launch.step(bound(None));
    let event = LaunchEvent::ProvisionFailed {
        step: PermissionStep::ChangeMode { mode: 0o600 },
        cause: "Read-only file system (os error 30)".to_string(),
    };
    assert_eq!(
        launch.step(event),
        LaunchAction::Fail {
            error: "Failed to set permissions for '/run/app.sock': Read-only file system (os error 30)"
                .to_string(),
            remove_socket_file: true,
        }
    );
}

#[test]
fn advance_uses_the_plan_it_is_given() {
    let (mut launch, _) = serve(&unix(None, Some("someone"), None));
    let plan = Ok(vec![PermissionStep::ChangeOwner { uid: Some(1001), gid: None }]);
    assert_eq!(
        launch.advance(bound(None), plan),
        LaunchAction::Provision {
            path: "/run/app.sock".to_string(),
            steps: vec![PermissionStep::ChangeOwner { uid: Some(1001), gid: None }],
        }
    );
    let (mut launch, _) = serve(&unix(None, Some("someone"), None));
    assert_eq!(
        launch.advance(bound(None), Err("no plan".to_string())),
        LaunchAction::Fail { error: "no plan".to_string(), remove_socket_file: true }
    );
    let (mut launch, _) = serve(&Endpoint::Inet("x:1".to_string()));
    assert_eq!(
        launch.advance(bound(Some("x:1")), Err("unused".to_string())),
        LaunchAction::Listen { address: Some("x:1".to_string()), socket_file: false }
    );
}

#[test]
fn events_out_of_place_are_ignored() {
    let (mut launch, _) = serve(&Endpoint::Inet("x:1".to_string()));
    assert_eq!(launch.step(LaunchEvent::Provisioned), LaunchAction::Ignore);
    assert_eq!(launch.phase(), LaunchPhase::Binding);
    launch.step(bound(None));
    assert_eq!(launch.step(bound(None)), LaunchAction::Ignore);
    assert_eq!(launch.step(LaunchEvent::BindFailed { cause: "late".to_string() }), LaunchAction::Ignore);
    assert_eq!(launch.phase(), LaunchPhase::Listening);

    let (mut launch, _) = serve(&unix(None, None, None));
    launch.step(bound(None));
    assert_eq!(launch.step(bound(None)), LaunchAction::Ignore);
    assert_eq!(launch.phase(), LaunchPhase::Provisioning);
    launch.step(LaunchEvent::BindFailed { cause: "late".to_string() });
    assert_eq!(launch.phase(), LaunchPhase::Provisioning);
}

#[test]
fn listener_is_announced_once() {
    let (mut launch, _) = serve(&unix(Some(0o660), None, None));
    let events = [
        bound(None),
        LaunchEvent::Provisioned,
        LaunchEvent::Provisioned,
        bound(None),
        LaunchEvent::Provisioned,
    ];
    let mut announced = 0;
    let mut provisioned = 0;
    for event in events {
        match launch.step(event) {
            LaunchAction::Listen { .. } => announced += 1,
            LaunchAction::Provision { .. } => {
                assert_eq!(announced, 0);
                provisioned += 1;
            }
            _ => {}
        }
    }
    assert_eq!((provisioned, announced), (1, 1));
}

fn plan() -> Vec<PermissionStep> {
    vec![PermissionStep::ChangeOwner { uid: Some(1), gid: None }, PermissionStep::ChangeMode { mode: 0o600 }]
}

#[test]
fn provisioning_begins_with_the_ownership_change() {
    assert_eq!(
        begin_provisioning(&plan()),
        Provisioning::Apply { index: 0, step: PermissionStep::ChangeOwner { uid: Some(1), gid: None } }
    );
    assert_eq!(begin_provisioning(&Vec::new()), Provisioning::Report(LaunchEvent::Provisioned));
}

#[test]
fn provisioning_goes_on_to_the_mode_change_and_ends() {
    assert_eq!(
        continue_provisioning(&plan(), 0, None),
        Provisioning::Apply { index: 1, step: PermissionStep::ChangeMode { mode: 0o600 } }
    );
    assert_eq!(continue_provisioning(&plan(), 1, None), Provisioning::Report(LaunchEvent::Provisioned));
    assert_eq!(continue_provisioning(&plan(), 2, None), Provisioning::Report(LaunchEvent::Provisioned));
    assert_eq!(continue_provisioning(&plan(), usize::MAX, None), Provisioning::Report(LaunchEvent::Provisioned));
}

#[test]
fn provisioning_stops_at_the_first_refusal() {
    assert_eq!(
        continue_provisioning(&plan(), 0, Some("Operation not permitted (os error 1)".to_string())),
        Provisioning::Report(LaunchEvent::ProvisionFailed {
            step: PermissionStep::ChangeOwner { uid: Some(1), gid: None },
            cause: "Operation not permitted (os error 1)".to_string(),
        })
    );
    assert_eq!(
        continue_provisioning(&plan(), 1, Some("Read-only file system (os error 30)".to_string())),
        Provisioning::Report(LaunchEvent::ProvisionFailed {
            step: PermissionStep::ChangeMode { mode: 0o600 },
            cause: "Read-only file system (os error 30)".to_string(),
        })
    );
}

#[test]
fn plan_is_carried_out_in_order_until_refused() {
    for refused_at in [None, Some(0), Some(1)] {
        let steps = plan();
        let mut tried = Vec::new();
        let mut next = begin_provisioning(&steps);
        let report = loop {
            match next {
                Provisioning::Apply { index, step } => {
                    tried.push(step);
                    let refusal = if refused_at == Some(index) { Some("no".to_string()) } else { None };
                    next = continue_provisioning(&steps, index, refusal);
                }
                Provisioning::Report(event) => break event,
            }
        };
        match refused_at {
            None => {
                assert_eq!(tried, steps);
                assert_eq!(report, LaunchEvent::Provisioned);
            }
            Some(at) => {
                assert_eq!(tried, steps[..=at].to_vec());
                assert_eq!(report, LaunchEvent::ProvisionFailed { step: steps[at], cause: "no".to_string() });
            }
        }
    }
}
