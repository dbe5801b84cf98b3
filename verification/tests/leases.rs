use agentenv::leases::{
    DeviceLease, DeviceLeases, LeaseError, Phase, ReleaseKind, ReleaseStep, UseStep,
};

/// Carries a release out, or not at all.
fn release(
    leases: &mut DeviceLeases,
    lease: &DeviceLease,
    operation: impl FnOnce(ReleaseKind) -> Result<(), ()>,
) -> Result<(), Option<LeaseError>> {
    match leases.release(lease).map_err(Some)? {
        ReleaseStep::Wait => panic!("the acquisition is busy"),
        ReleaseStep::AlreadyReleased => Ok(()),
        ReleaseStep::Run(kind, permit) => {
            let result = operation(kind);
            leases.finish_release(permit, result.is_ok());
            result.map_err(|()| None)
        }
    }
}

fn use_active(leases: &mut DeviceLeases, lease: &DeviceLease) -> Result<(), LeaseError> {
    match leases.use_active(lease)? {
        UseStep::Wait => panic!("the acquisition is busy"),
        UseStep::Run(permit) => {
            leases.finish_use(permit);
            Ok(())
        }
    }
}

#[test]
fn completed_release_replay_cannot_touch_a_reused_device_number() {
    let mut leases = DeviceLeases::default();
    let original = leases.register(7, ReleaseKind::Pooled);
    let mut effects = 0;
    release(&mut leases, &original, |_| {
        effects += 1;
        Ok(())
    })
    .unwrap();
    let replacement = leases.register(7, ReleaseKind::Pooled);
    release(&mut leases, &original, |_| {
        panic!("old release touched replacement")
    })
    .unwrap();
    use_active(&mut leases, &replacement).unwrap();
    assert_eq!(effects, 1);
    assert_eq!(
        use_active(&mut leases, &original),
        Err(LeaseError::NotActive)
    );
}

#[test]
fn shared_acquisitions_release_once_each_even_with_duplicate_requests() {
    let mut leases = DeviceLeases::default();
    let first = leases.register(9, ReleaseKind::Pooled);
    let second = leases.register(9, ReleaseKind::Pooled);
    assert_ne!(first.lease_id, second.lease_id);
    let mut effects = 0;
    // A second request arrives while the first is being carried out.
    let ReleaseStep::Run(kind, permit) = leases.release(&first).unwrap() else {
        panic!("an active acquisition is released");
    };
    assert_eq!(kind, ReleaseKind::Pooled);
    assert!(matches!(leases.release(&first), Ok(ReleaseStep::Wait)));
    effects += 1;
    leases.finish_release(permit, true);
    assert!(matches!(
        leases.release(&first),
        Ok(ReleaseStep::AlreadyReleased)
    ));
    use_active(&mut leases, &second).unwrap();
    release(&mut leases, &second, |_| {
        effects += 1;
        Ok(())
    })
    .unwrap();
    assert_eq!(effects, 2);
}

#[test]
fn cancelled_release_keeps_unknown_outcome_and_rejects_foreign_identity() {
    let mut leases = DeviceLeases::default();
    let lease = leases.register(3, ReleaseKind::Raw);
    let ReleaseStep::Run(kind, permit) = leases.release(&lease).unwrap() else {
        panic!("an active acquisition is released");
    };
    assert_eq!(kind, ReleaseKind::Raw);
    // The release is broken off.
    leases.finish_release(permit, false);
    assert_eq!(
        release(&mut leases, &lease, |_| panic!("repeated uncertain effect")),
        Err(Some(LeaseError::Unresolved))
    );
    let mut wrong = lease.clone();
    wrong.dev_id = 4;
    assert_eq!(
        release(&mut leases, &wrong, |_| panic!("wrong device")),
        Err(Some(LeaseError::WrongDevice))
    );
    assert_eq!(
        release(&mut DeviceLeases::default(), &lease, |_| {
            panic!("foreign daemon")
        }),
        Err(Some(LeaseError::Unknown))
    );
}

#[test]
fn a_release_waits_for_a_running_use() {
    let mut leases = DeviceLeases::default();
    let lease = leases.register(3, ReleaseKind::Raw);
    let UseStep::Run(permit) = leases.use_active(&lease).unwrap() else {
        panic!("an active acquisition is used");
    };
    assert!(matches!(leases.use_active(&lease), Ok(UseStep::Wait)));
    assert!(matches!(leases.release(&lease), Ok(ReleaseStep::Wait)));
    assert_eq!(leases.lock(&lease), Ok(None));
    leases.finish_use(permit);
    assert_eq!(leases.lock(&lease).unwrap().unwrap().phase, Phase::Active);
    release(&mut leases, &lease, |_| Ok(())).unwrap();
    assert_eq!(use_active(&mut leases, &lease), Err(LeaseError::NotActive));
}

#[test]
fn a_failed_release_is_not_acknowledged_or_repeated() {
    let mut leases = DeviceLeases::default();
    let lease = leases.register(3, ReleaseKind::Raw);
    assert_eq!(release(&mut leases, &lease, |_| Err(())), Err(None));
    assert_eq!(
        release(&mut leases, &lease, |_| panic!("unresolved deletion repeated")),
        Err(Some(LeaseError::Unresolved))
    );
    assert_eq!(use_active(&mut leases, &lease), Err(LeaseError::NotActive));
}

#[test]
fn an_identity_is_issued_once() {
    let mut leases = DeviceLeases::default();
    let lease = leases
        .register_as("one".to_string(), 1, ReleaseKind::Raw)
        .unwrap();
    assert_eq!(lease.dev_id, 1);
    assert_eq!(lease.lease_id, "one");
    assert!(leases
        .register_as("one".to_string(), 2, ReleaseKind::Pooled)
        .is_none());
    let record = leases.lock(&lease).unwrap().unwrap();
    assert_eq!(record.dev_id, 1);
    assert_eq!(record.kind, ReleaseKind::Raw);
}

#[test]
fn messages_of_refused_operations() {
    assert_eq!(
        LeaseError::Unknown.message(),
        "unknown device acquisition; reconciliation required"
    );
    assert_eq!(
        LeaseError::WrongDevice.message(),
        "device acquisition ID does not match device number"
    );
    assert_eq!(
        LeaseError::NotActive.message(),
        "device acquisition is releasing or released"
    );
    assert_eq!(
        LeaseError::Unresolved.message(),
        "device release outcome is unresolved; reconciliation required"
    );
}

#[test]
fn identities_that_follow_a_draw_are_taken_in_order() {
    let mut leases = DeviceLeases::default();
    let drawn = 0x0190_0000_0001_7abc_9def_0123_4567_89ab;
    let texts = [
        "01900000-0001-7000-8000-000000000000",
        "01900000-0001-7000-8000-000000000001",
        "01900000-0001-7000-8000-000000000002",
    ];
    leases
        .register_as(texts[1].to_string(), 1, ReleaseKind::Raw)
        .unwrap();
    let first = leases.register_after(drawn, 9, ReleaseKind::Pooled);
    let second = leases.register_after(drawn, 9, ReleaseKind::Pooled);
    assert_eq!(first.lease_id, texts[0]);
    assert_eq!(second.lease_id, texts[2]);
    assert_eq!((first.dev_id, second.dev_id), (9, 9));
    release(&mut leases, &first, |_| Ok(())).unwrap();
    assert_eq!(
        leases.lock(&second).unwrap().unwrap().phase,
        Phase::Active
    );
}
