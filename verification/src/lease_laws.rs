//! What holds of the operations on device acquisitions: what each lets run, what
//! it leaves, and how one relates to the next.

use vstd::prelude::*;

use crate::ident;
use crate::leases::{
    DeviceLease, DeviceLeases, LeaseError, LeasePermit, LeaseRecord, ReleaseKind, ReleaseStep,
    UseStep,
};

verus! {

/// Whether a receipt is one of these acquisitions, of the device that it names.
pub open spec fn is_genuine(records: Map<Seq<char>, LeaseRecord>, lease: DeviceLease) -> bool {
    records.contains_key(lease.lease_id@) && records[lease.lease_id@].dev_id == lease.dev_id
}

/// Whether an acquisition is busy.
pub open spec fn is_busy(records: Map<Seq<char>, LeaseRecord>, lease: DeviceLease) -> bool {
    records.contains_key(lease.lease_id@) && records[lease.lease_id@].busy
}

/// Whether records differ in one acquisition at most, of which the device and the
/// way of its release are kept.
pub open spec fn only_touches(
    before: Map<Seq<char>, LeaseRecord>,
    after: Map<Seq<char>, LeaseRecord>,
    lease_id: Seq<char>,
) -> bool {
    &&& after.dom() =~= before.dom()
    &&& forall|other: Seq<char>| #[trigger]
        before.contains_key(other) && other != lease_id ==> after[other] == before[other]
    &&& before.contains_key(lease_id) ==> after[lease_id].dev_id == before[lease_id].dev_id
        && after[lease_id].kind == before[lease_id].kind
}

/// A device may be used exactly through a receipt of this daemon for that device,
/// while the acquisition is active and idle. From then on the acquisition is busy;
/// whoever is refused or has to wait changes nothing.
pub proof fn law_only_active_acquisitions_are_used(
    leases: &mut DeviceLeases,
    lease: DeviceLease,
    result: Result<UseStep, LeaseError>,
)
    requires
        call_ensures(DeviceLeases::use_active, (leases, &lease), result),
    ensures
        ({
            let before = old(leases)@;
            let after = final(leases)@;
            let id = lease.lease_id@;
            &&& (result matches Ok(UseStep::Run(_))) <==> is_genuine(before, lease) && !is_busy(
                before,
                lease,
            ) && before[id].phase is Active
            &&& (result matches Ok(UseStep::Wait)) <==> is_busy(before, lease)
            &&& result matches Ok(UseStep::Run(permit)) ==> {
                &&& permit.lease_id() == id
                &&& only_touches(before, after, id)
                &&& after[id].busy && after[id].phase is Active
            }
            &&& !(result matches Ok(UseStep::Run(_))) ==> after == before
            &&& result matches Err(error) ==> {
                &&& error is Unknown <==> !before.contains_key(id)
                &&& error is WrongDevice <==> before.contains_key(id) && !is_genuine(before, lease)
                &&& error is NotActive <==> is_genuine(before, lease)
                &&& !(error is Unresolved)
            }
        }),
{
}

/// A release runs exactly through a receipt of this daemon for that device, while
/// the acquisition is active and idle, and in the way that it was registered with.
/// It is marked as started before it runs. One that was completed before succeeds
/// again without running, and one that was started and never seen to succeed is
/// never started again.
pub proof fn law_releases_run_once_at_most(
    leases: &mut DeviceLeases,
    lease: DeviceLease,
    result: Result<ReleaseStep, LeaseError>,
)
    requires
        call_ensures(DeviceLeases::release, (leases, &lease), result),
    ensures
        ({
            let before = old(leases)@;
            let after = final(leases)@;
            let id = lease.lease_id@;
            let idle = is_genuine(before, lease) && !is_busy(before, lease);
            &&& (result matches Ok(ReleaseStep::Run(_, _))) <==> idle && before[id].phase is Active
            &&& (result matches Ok(ReleaseStep::AlreadyReleased)) <==> idle
                && before[id].phase is Released
            &&& (result matches Ok(ReleaseStep::Wait)) <==> is_busy(before, lease)
            &&& result matches Ok(ReleaseStep::Run(kind, permit)) ==> {
                &&& kind == before[id].kind
                &&& permit.lease_id() == id
                &&& only_touches(before, after, id)
                &&& after[id].busy && after[id].phase is Releasing
            }
            &&& !(result matches Ok(ReleaseStep::Run(_, _))) ==> after == before
            &&& result matches Err(error) ==> {
                &&& error is Unknown <==> !before.contains_key(id)
                &&& error is WrongDevice <==> before.contains_key(id) && !is_genuine(before, lease)
                &&& error is Unresolved <==> is_genuine(before, lease)
                &&& !(error is NotActive)
            }
        }),
{
}

/// The end of a use leaves the acquisition active and idle, and touches no other.
pub proof fn law_end_of_use_is_noted(leases: &mut DeviceLeases, permit: LeasePermit)
    requires
        call_ensures(DeviceLeases::finish_use, (leases, permit), ()),
    ensures
        ({
            let before = old(leases)@;
            let after = final(leases)@;
            let id = permit.lease_id();
            &&& only_touches(before, after, id)
            &&& before.contains_key(id) ==> after[id].phase == before[id].phase
            &&& before.contains_key(id) && before[id].phase is Active ==> !after[id].busy
            &&& before.contains_key(id) && !(before[id].phase is Active) ==> after[id]
                == before[id]
        }),
{
}

/// The end of a release completes it if it succeeded. Without success its outcome
/// stays open; either way the acquisition is not busy any more, never active
/// again, and no other is touched.
pub proof fn law_end_of_release_is_noted(
    leases: &mut DeviceLeases,
    permit: LeasePermit,
    succeeded: bool,
)
    requires
        call_ensures(DeviceLeases::finish_release, (leases, permit, succeeded), ()),
    ensures
        ({
            let before = old(leases)@;
            let after = final(leases)@;
            let id = permit.lease_id();
            let running = before.contains_key(id) && before[id].busy
                && before[id].phase is Releasing;
            &&& only_touches(before, after, id)
            &&& running ==> !after[id].busy
            &&& running && succeeded ==> after[id].phase is Released
            &&& running && !succeeded ==> after[id].phase is Releasing
            &&& !running ==> after == before
        }),
{
}

/// While a release runs every other request waits. Once it has succeeded, its
/// replay succeeds without running; if it failed, its replay is refused.
pub proof fn law_release_is_not_repeated(
    begun: &mut DeviceLeases,
    waiting: &mut DeviceLeases,
    ended: &mut DeviceLeases,
    replayed: &mut DeviceLeases,
    lease: DeviceLease,
    kind: ReleaseKind,
    permit: LeasePermit,
    meanwhile: Result<ReleaseStep, LeaseError>,
    succeeded: bool,
    replay: Result<ReleaseStep, LeaseError>,
)
    requires
        call_ensures(DeviceLeases::release, (begun, &lease), Ok(ReleaseStep::Run(kind, permit))),
        *old(waiting) == *final(begun),
        call_ensures(DeviceLeases::release, (waiting, &lease), meanwhile),
        *old(ended) == *final(waiting),
        call_ensures(DeviceLeases::finish_release, (ended, permit, succeeded), ()),
        *old(replayed) == *final(ended),
        call_ensures(DeviceLeases::release, (replayed, &lease), replay),
    ensures
        meanwhile == Ok::<ReleaseStep, LeaseError>(ReleaseStep::Wait),
        succeeded ==> replay == Ok::<ReleaseStep, LeaseError>(ReleaseStep::AlreadyReleased),
        !succeeded ==> replay == Err::<ReleaseStep, LeaseError>(LeaseError::Unresolved),
        final(replayed)@ == final(ended)@,
{
}

/// While a device is used its release waits, and once the use has ended the
/// release runs.
pub proof fn law_use_holds_the_release_off(
    begun: &mut DeviceLeases,
    waiting: &mut DeviceLeases,
    ended: &mut DeviceLeases,
    released: &mut DeviceLeases,
    lease: DeviceLease,
    permit: LeasePermit,
    meanwhile: Result<ReleaseStep, LeaseError>,
    later: Result<ReleaseStep, LeaseError>,
)
    requires
        call_ensures(DeviceLeases::use_active, (begun, &lease), Ok(UseStep::Run(permit))),
        *old(waiting) == *final(begun),
        call_ensures(DeviceLeases::release, (waiting, &lease), meanwhile),
        *old(ended) == *final(waiting),
        call_ensures(DeviceLeases::finish_use, (ended, permit), ()),
        *old(released) == *final(ended),
        call_ensures(DeviceLeases::release, (released, &lease), later),
    ensures
        meanwhile == Ok::<ReleaseStep, LeaseError>(ReleaseStep::Wait),
        final(ended)@ =~= old(begun)@,
        later matches Ok(ReleaseStep::Run(_, _)),
{
}

/// A new acquisition has a receipt of its own for its device, is active and idle,
/// and leaves every other as it is. Its device can be used through that receipt.
pub proof fn law_new_acquisitions_can_be_used(
    leases: &mut DeviceLeases,
    dev_id: u32,
    kind: ReleaseKind,
    lease: DeviceLease,
    used: &mut DeviceLeases,
    result: Result<UseStep, LeaseError>,
)
    requires
        call_ensures(DeviceLeases::register, (leases, dev_id, kind), lease),
        *old(used) == *final(leases),
        call_ensures(DeviceLeases::use_active, (used, &lease), result),
    ensures
        lease.dev_id == dev_id,
        !old(leases)@.contains_key(lease.lease_id@),
        exists|id: u128| ident::is_v7(id) && #[trigger] ident::uuid_text(id) == lease.lease_id@,
        ({
            let after = final(leases)@;
            let record = after[lease.lease_id@];
            &&& after.dom() =~= old(leases)@.dom().insert(lease.lease_id@)
            &&& record.dev_id == dev_id && record.kind == kind && record.phase is Active
                && !record.busy
            &&& forall|other: Seq<char>| #[trigger]
                old(leases)@.contains_key(other) ==> after[other] == old(leases)@[other]
        }),
        result matches Ok(UseStep::Run(_)),
{
}

/// A given identity is registered exactly if it is free, and a taken one keeps its
/// acquisition.
pub proof fn law_taken_identities_are_kept(
    leases: &mut DeviceLeases,
    lease_id: String,
    dev_id: u32,
    kind: ReleaseKind,
    lease: Option<DeviceLease>,
)
    requires
        call_ensures(DeviceLeases::register_as, (leases, lease_id, dev_id, kind), lease),
    ensures
        lease is None <==> old(leases)@.contains_key(lease_id@),
        lease is None ==> final(leases)@ == old(leases)@,
        lease matches Some(issued) ==> {
            let record = final(leases)@[lease_id@];
            &&& issued.dev_id == dev_id && issued.lease_id@ == lease_id@
            &&& final(leases)@.dom() =~= old(leases)@.dom().insert(lease_id@)
            &&& record.dev_id == dev_id && record.kind == kind && record.phase is Active
                && !record.busy
            &&& forall|other: Seq<char>| #[trigger]
                old(leases)@.contains_key(other) ==> final(leases)@[other] == old(leases)@[other]
        },
{
}

/// A receipt gives access to its record exactly if it is genuine and the
/// acquisition is idle.
pub proof fn law_receipts_give_access(
    leases: DeviceLeases,
    lease: DeviceLease,
    result: Result<Option<LeaseRecord>, LeaseError>,
)
    requires
        call_ensures(DeviceLeases::lock, (&leases, &lease), result),
    ensures
        result matches Ok(Some(record)) ==> is_genuine(leases@, lease) && !is_busy(leases@, lease)
            && record == leases@[lease.lease_id@],
        is_genuine(leases@, lease) && !is_busy(leases@, lease) ==> result matches Ok(Some(_)),
        (result matches Ok(None)) <==> is_busy(leases@, lease),
        result matches Err(error) ==> (error is Unknown <==> !leases@.contains_key(
            lease.lease_id@,
        )) && (error is Unknown || error is WrongDevice),
{
}

/// A daemon starts without any acquisition, so no receipt of an earlier one gives
/// access to anything.
pub proof fn law_new_daemon_knows_no_receipt(
    leases: DeviceLeases,
    lease: DeviceLease,
    result: Result<Option<LeaseRecord>, LeaseError>,
)
    requires
        call_ensures(<DeviceLeases as Default>::default, (), leases),
        call_ensures(DeviceLeases::lock, (&leases, &lease), result),
    ensures
        result == Err::<Option<LeaseRecord>, LeaseError>(LeaseError::Unknown),
{
}

/// Refusals are told apart by their messages.
pub proof fn law_lease_errors_are_told(error: LeaseError, text: String)
    requires
        call_ensures(LeaseError::message, (error,), text),
    ensures
        error is Unknown ==> text@ == "unknown device acquisition; reconciliation required"@,
        error is WrongDevice ==> text@ == "device acquisition ID does not match device number"@,
        error is NotActive ==> text@ == "device acquisition is releasing or released"@,
        error is Unresolved ==> text@
            == "device release outcome is unresolved; reconciliation required"@,
{
}

/// Where an identity is searched for, one is found that is free, and the
/// acquisition is registered under it.
pub proof fn law_searched_identities_are_free(
    leases: &mut DeviceLeases,
    drawn: u128,
    dev_id: u32,
    kind: ReleaseKind,
    lease: DeviceLease,
)
    requires
        call_ensures(DeviceLeases::register_after, (leases, drawn, dev_id, kind), lease),
    ensures
        lease.dev_id == dev_id,
        !old(leases)@.contains_key(lease.lease_id@),
        exists|id: u128| ident::is_v7(id) && #[trigger] ident::uuid_text(id) == lease.lease_id@,
        ({
            let record = final(leases)@[lease.lease_id@];
            &&& final(leases)@.dom() =~= old(leases)@.dom().insert(lease.lease_id@)
            &&& record.dev_id == dev_id && record.kind == kind && record.phase is Active
                && !record.busy
            &&& forall|other: Seq<char>| #[trigger]
                old(leases)@.contains_key(other) ==> final(leases)@[other] == old(leases)@[other]
        }),
{
}

} // verus!
