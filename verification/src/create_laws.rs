//! What holds of the creation of sandboxes: that what is launched is what was
//! asked for, and what becomes of the volumes of a creation that failed.

use vstd::prelude::*;

use crate::api::{ApiError, OrchestratorErrorKind, Reply, Status};
use crate::create;
use crate::create::{
    ColdDraft, ColdLaunch, ColdMount, CreatedSandbox, ImageResolution, LaunchCall, LaunchFailure,
    LaunchOptions, LaunchStep, ResolvedAttachedDrive, ResolvedBlockImage, SandboxLaunchSource,
    SnapshotLoad, Unprepared, WarmDraft, WarmLaunch, WarmStep,
};
use crate::ident;
use crate::ident::SandboxId;
use crate::json::Json;
use crate::models::{SandboxAccess, SandboxMetadata, SandboxResources, SandboxTimeoutAction};
use crate::network::{SandboxNetworkConfig, SandboxNetworkEgressPolicy, SandboxNetworkPolicy};
use crate::paths;
use crate::reply_laws;
use crate::requests;
use crate::requests::{AttachedImage, ImageConfigEntry, NewColdSandbox, NewSandbox};
use crate::text;
use crate::text_map::TextMap;
use crate::volumes;
use crate::volumes::{CallView, PreparedVolumeMounts, SnapshotVolume};

verus! {

/// Whether a map is there and has a key.
pub open spec fn has_keys(map: Option<TextMap>) -> bool {
    map matches Some(map) && map.list().len() > 0
}

/// Whether a policy is what a request asks for with rules that were read.
pub open spec fn is_asked_policy(
    policy: SandboxNetworkPolicy,
    allow_internet_access: Option<bool>,
    network: Option<SandboxNetworkConfig>,
    rules: SandboxNetworkEgressPolicy,
) -> bool {
    &&& policy.egress == rules
    &&& policy.allow_public_traffic <==> (network is None || (network->0).allow_public_traffic
        != Some(false))
    &&& policy.base_policy is Allow <==> allow_internet_access == Some(true)
    &&& policy.base_policy is Deny <==> allow_internet_access == Some(false)
    &&& policy.base_policy is Default <==> allow_internet_access is None
}

/// Whether the options of a launch are those of a request to create a sandbox from
/// a snapshot, each taken from the field of that name.
pub open spec fn options_of_warm(
    options: LaunchOptions,
    body: NewSandbox,
    rules: SandboxNetworkEgressPolicy,
) -> bool {
    &&& options.user_metadata == body.metadata
    &&& has_keys(body.env_vars) ==> options.env_vars == body.env_vars
    &&& !has_keys(body.env_vars) ==> options.env_vars is None
    &&& options.timeout is Some <==> body.timeout is Some
    &&& body.timeout is Some ==> options.timeout->0 == body.timeout->0
    &&& options.timeout_action is Delete <==> body.auto_pause == Some(false)
    &&& options.timeout_action is Pause <==> body.auto_pause != Some(false)
    &&& options.auto_resume <==> body.auto_resume == Some(true)
    &&& options.secure <==> body.secure == Some(true)
    &&& options.custom_extension_params == body.custom_extension_params
    &&& is_asked_policy(options.network_policy, body.allow_internet_access, body.network, rules)
}

/// Whether the options of a launch are those of a request to create a sandbox from
/// an image, each taken from the field of that name.
pub open spec fn options_of_cold(
    options: LaunchOptions,
    body: NewColdSandbox,
    rules: SandboxNetworkEgressPolicy,
) -> bool {
    &&& options.user_metadata == body.metadata
    &&& has_keys(body.env_vars) ==> options.env_vars == body.env_vars
    &&& !has_keys(body.env_vars) ==> options.env_vars is None
    &&& options.timeout is Some <==> body.timeout is Some
    &&& body.timeout is Some ==> options.timeout->0 == body.timeout->0
    &&& options.timeout_action is Delete <==> body.auto_pause == Some(false)
    &&& options.timeout_action is Pause <==> body.auto_pause != Some(false)
    &&& options.auto_resume <==> body.auto_resume == Some(true)
    &&& options.secure <==> body.secure == Some(true)
    &&& options.custom_extension_params == body.custom_extension_params
    &&& is_asked_policy(options.network_policy, body.allow_internet_access, body.network, rules)
}

/// Whether the network and the extension parameters of a request are in order.
pub open spec fn request_in_order(
    egress: Result<SandboxNetworkEgressPolicy, String>,
    params: Option<Vec<(String, Json)>>,
    extension_configured: bool,
) -> bool {
    &&& egress matches Ok(rules) && reply_laws::rules_in_order(rules)
    &&& extension_configured || params is None || (params->0)@.len() == 0
}

/// Whether mount paths can be used together: each could be normalised, and no two
/// overlap.
pub open spec fn layout_in_order(normalized: Seq<Result<String, String>>) -> bool {
    &&& forall|i: int| 0 <= i < normalized.len() ==> #[trigger] normalized[i] is Ok
    &&& forall|i: int, j: int|
        0 <= i < j < normalized.len() ==> !paths::overlap(
            (#[trigger] normalized[i])->Ok_0@,
            (#[trigger] normalized[j])->Ok_0@,
        )
}

/// A layout is accepted exactly if it is in order.
pub proof fn lemma_layout_in_order(normalized: Seq<Result<String, String>>)
    ensures
        volumes::layout_fault(normalized) is None <==> layout_in_order(normalized),
    decreases normalized.len(),
{
    if normalized.len() > 0 {
        let rest = normalized.drop_last();
        let last = normalized[normalized.len() - 1];
        lemma_layout_in_order(rest);
        if layout_in_order(normalized) {
            assert(layout_in_order(rest)) by {
                assert forall|i: int| 0 <= i < rest.len() implies #[trigger] rest[i] is Ok by {
                    assert(rest[i] == normalized[i]);
                }
                assert forall|i: int, j: int| 0 <= i < j < rest.len() implies !paths::overlap(
                    (#[trigger] rest[i])->Ok_0@,
                    (#[trigger] rest[j])->Ok_0@,
                ) by {
                    assert(rest[i] == normalized[i] && rest[j] == normalized[j]);
                }
            }
            assert(last is Ok);
            if volumes::overlaps_any(rest, last->Ok_0@) {
                let i = choose|i: int|
                    0 <= i < rest.len() && (#[trigger] rest[i] matches Ok(existing)
                        && paths::overlap(existing@, last->Ok_0@));
                assert(rest[i] == normalized[i]);
            }
        }
        if volumes::layout_fault(normalized) is None {
            assert forall|i: int| 0 <= i < normalized.len() implies #[trigger] normalized[i] is Ok by {
                if i < rest.len() {
                    assert(rest[i] == normalized[i]);
                }
            }
            assert forall|i: int, j: int| 0 <= i < j < normalized.len() implies !paths::overlap(
                (#[trigger] normalized[i])->Ok_0@,
                (#[trigger] normalized[j])->Ok_0@,
            ) by {
                assert(rest[i] == normalized[i]);
                if j < rest.len() {
                    assert(rest[j] == normalized[j]);
                } else {
                    assert(rest[i] matches Ok(existing) && !paths::overlap(existing@, last->Ok_0@));
                }
            }
        }
    }
}

/// A request for a sandbox from a snapshot that is found and in order is launched
/// as it was asked for: from that snapshot, under the identity that was drawn for
/// it, with each option taken from the field of that name. Mounts that the request
/// names are taken; without any, those of the snapshot are restored.
pub proof fn law_warm_sandbox_is_launched_as_asked<S, L>(
    body: NewSandbox,
    sandbox_id: SandboxId,
    snapshot: S,
    kept: Vec<SnapshotVolume<L>>,
    egress: Result<SandboxNetworkEgressPolicy, String>,
    configured: bool,
    normalized: Vec<Result<String, String>>,
    max_mounts: usize,
    step: WarmStep<S, L>,
)
    requires
        call_ensures(
            create::create_warm_sandbox::<S, L>,
            (
                body,
                sandbox_id,
                SnapshotLoad::Found(snapshot, kept),
                egress,
                configured,
                normalized,
                max_mounts,
            ),
            step,
        ),
    ensures
        step is Answer <==> !(request_in_order(egress, body.custom_extension_params, configured)
            && (body.volume_mounts is Some || (kept@.len() <= max_mounts && layout_in_order(
            normalized@,
        )))),
        step is Mount ==> body.volume_mounts is Some,
        step is Restore ==> body.volume_mounts is None,
        step matches WarmStep::Mount(draft, mounts, restored) ==> {
            &&& draft.sandbox_id == sandbox_id
            &&& draft.snapshot == snapshot
            &&& !draft.extra_drives_in_snapshot
            &&& options_of_warm(draft.options, body, egress->Ok_0)
            &&& mounts == body.volume_mounts
            &&& restored@.len() == 0
        },
        step matches WarmStep::Restore(draft, run) ==> {
            &&& draft.sandbox_id == sandbox_id
            &&& draft.snapshot == snapshot
            &&& draft.extra_drives_in_snapshot <==> kept@.len() > 0
            &&& options_of_warm(draft.options, body, egress->Ok_0)
            &&& run.owner() == sandbox_id
            &&& run.todo() == kept@
            &&& run.created().len() == 0
            &&& run.paths().len() == normalized@.len()
            &&& forall|i: int|
                0 <= i < normalized@.len() ==> run.paths()[i] == (#[trigger] normalized@[i])->Ok_0@
        },
{
    lemma_layout_in_order(normalized@);
    if let Ok(rules) = egress {
        lemma_rules(rules);
    }
}

proof fn lemma_rules(rules: SandboxNetworkEgressPolicy)
    ensures
        crate::network::policy_fault(rules) is None <==> reply_laws::rules_in_order(rules),
{
    if crate::network::denies_all_traffic(rules) {
        let i = choose|i: int|
            0 <= i < rules.denied_cidrs@.len() && crate::network::is_all_traffic(
                #[trigger] rules.denied_cidrs@[i],
            );
        assert(rules.denied_cidrs@[i] matches crate::network::Cidr::V4(all) && all.addr() == 0
            && all.prefix() == 0);
    }
    if exists|i: int|
        0 <= i < rules.denied_cidrs@.len()
            && (#[trigger] rules.denied_cidrs@[i] matches crate::network::Cidr::V4(all)
            && all.addr() == 0 && all.prefix() == 0) {
        let i = choose|i: int|
            0 <= i < rules.denied_cidrs@.len()
                && (#[trigger] rules.denied_cidrs@[i] matches crate::network::Cidr::V4(all)
                && all.addr() == 0 && all.prefix() == 0);
        assert(crate::network::is_all_traffic(rules.denied_cidrs@[i]));
    }
    assert forall|i: int| 0 <= i < rules.allowed_cidrs@.len() implies (
    #[trigger] rules.allowed_cidrs@[i] is V4) == !(rules.allowed_cidrs@[i] is V6) by {}
    assert forall|i: int| 0 <= i < rules.denied_cidrs@.len() implies (
    #[trigger] rules.denied_cidrs@[i] is V4) == !(rules.denied_cidrs@[i] is V6) by {}
}

/// A request for a snapshot that is not there is the client's fault, and one that
/// could not be loaded a server error; a request that is not in order is the
/// client's fault. None of them launches anything.
pub proof fn law_warm_requests_are_refused<S, L>(
    body: NewSandbox,
    sandbox_id: SandboxId,
    load: SnapshotLoad<S, L>,
    egress: Result<SandboxNetworkEgressPolicy, String>,
    configured: bool,
    normalized: Vec<Result<String, String>>,
    max_mounts: usize,
    step: WarmStep<S, L>,
    layout: Result<Vec<String>, ApiError>,
)
    requires
        call_ensures(
            create::create_warm_sandbox::<S, L>,
            (body, sandbox_id, load, egress, configured, normalized, max_mounts),
            step,
        ),
        call_ensures(volumes::checked_layout, (normalized,), layout),
    ensures
        load is Found && request_in_order(egress, body.custom_extension_params, configured)
            && body.volume_mounts is None && (load->Found_1)@.len() <= max_mounts ==> (
        layout matches Err(fault) ==> (step matches WarmStep::Answer(reply) && reply_laws::tells(
            reply,
            Status::BadRequest,
            fault,
        ))),
        load is NotFound ==> (step matches WarmStep::Answer(reply) && reply_laws::refused(
            reply,
            Status::BadRequest,
            400,
            "template "@ + body.template_id@ + " not found"@,
        )),
        load matches SnapshotLoad::Failed(error) ==> (step matches WarmStep::Answer(reply)
            && reply_laws::tells(reply, Status::ServerError, error)),
        load is Found && !request_in_order(egress, body.custom_extension_params, configured) ==> (
        step matches WarmStep::Answer(Reply::Refused(status, error)) && status is BadRequest
            && error.code == 400),
        load is Found && egress is Err ==> (step matches WarmStep::Answer(Reply::Refused(_, error))
            && error.message@ == (egress->Err_0)@),
        load is Found && (egress matches Ok(rules) && reply_laws::rules_in_order(rules)) && !configured
            && body.custom_extension_params is Some && (body.custom_extension_params->0)@.len() > 0
            ==> (step matches WarmStep::Answer(reply) && reply_laws::refused(
            reply,
            Status::BadRequest,
            400,
            "customExtensionParams requires the custom extension to be configured ([custom_extension].url)"@,
        )),
        load is Found && request_in_order(egress, body.custom_extension_params, configured)
            && body.volume_mounts is None && (load->Found_1)@.len() > max_mounts ==> (
        step matches WarmStep::Answer(reply) && reply_laws::refused(
            reply,
            Status::BadRequest,
            400,
            "snapshot contains too many volume mounts"@,
        )),
{
    if let Ok(rules) = egress {
        lemma_rules(rules);
    }
    crate::volume_laws::lemma_layout_code(normalized@);
}

/// A request from a snapshot and one from an image that say the same are launched
/// with the same options.
pub proof fn law_warm_and_cold_options_agree<S, L, C, D>(
    warm: NewSandbox,
    cold: ColdDraft<C>,
    sandbox_id: SandboxId,
    load: SnapshotLoad<S, L>,
    egress: Result<SandboxNetworkEgressPolicy, String>,
    configured: bool,
    normalized: Vec<Result<String, String>>,
    max_mounts: usize,
    draft: WarmDraft<S>,
    mounts: Option<TextMap>,
    restored: Vec<String>,
    drives: Vec<ResolvedAttachedDrive<D>>,
    mount: ColdMount<C, D>,
    cold_mounts: Option<TextMap>,
)
    requires
        call_ensures(
            create::create_warm_sandbox::<S, L>,
            (warm, sandbox_id, load, egress, configured, normalized, max_mounts),
            WarmStep::Mount(draft, mounts, restored),
        ),
        call_ensures(
            ColdDraft::<C>::attached::<D>,
            (cold, Ok(drives), egress, configured),
            Ok((mount, cold_mounts)),
        ),
        cold.body.timeout == warm.timeout,
        cold.body.auto_pause == warm.auto_pause,
        cold.body.auto_resume == warm.auto_resume,
        cold.body.secure == warm.secure,
        cold.body.allow_internet_access == warm.allow_internet_access,
        cold.body.network == warm.network,
        cold.body.metadata == warm.metadata,
        cold.body.env_vars == warm.env_vars,
        cold.body.volume_mounts == warm.volume_mounts,
        cold.body.custom_extension_params == warm.custom_extension_params,
    ensures
        mount.options == draft.options,
        cold_mounts == mounts,
{
}

/// Restored volumes are mounted for the same launch, and noted down; a snapshot
/// without volumes mounts nothing. A restoration that failed launches nothing.
pub proof fn law_restored_volumes_are_mounted<S, L>(
    draft: WarmDraft<S>,
    mounts: TextMap,
    volume_ids: Vec<String>,
    step: WarmStep<S, L>,
    error: ApiError,
    failed: WarmStep<S, L>,
)
    requires
        call_ensures(WarmDraft::<S>::restored::<L>, (draft, Ok((mounts, volume_ids))), step),
        call_ensures(WarmDraft::<S>::restored::<L>, (draft, Err(error)), failed),
    ensures
        step matches WarmStep::Mount(kept, wanted, restored) && {
            &&& kept == draft
            &&& restored == volume_ids
            &&& mounts.list().len() > 0 ==> wanted == Some(mounts)
            &&& mounts.list().len() == 0 ==> wanted is None
        },
        failed matches WarmStep::Answer(reply) && reply_laws::tells(
            reply,
            if error.code == 500 {
                Status::ServerError
            } else {
                Status::BadRequest
            },
            error,
        ),
{
}

/// What the orchestrator is asked to launch is the draft: its snapshot, its
/// options and its identity, with the mounts and drives that were prepared for it,
/// and the volumes that were restored are noted down with the launch.
pub proof fn law_prepared_draft_is_launched<S, C, D>(
    draft: WarmDraft<S>,
    restored: Vec<String>,
    prepared: PreparedVolumeMounts<D>,
    call: LaunchCall<S, C, D>,
    launch: WarmLaunch,
)
    requires
        call_ensures(
            WarmDraft::<S>::prepared::<C, D>,
            (draft, restored, Ok(prepared)),
            Ok((call, launch)),
        ),
    ensures
        call.sandbox_id == draft.sandbox_id,
        call.request.source == SandboxLaunchSource::<S, C, D>::Snapshot(draft.snapshot),
        call.request.options == draft.options,
        call.request.extra_drives == prepared.drives,
        call.request.extra_drives_in_snapshot == draft.extra_drives_in_snapshot,
        call.request.volume_mounts == prepared.mounts,
        call.volumes_created_for_launch@.len() == restored@.len(),
        forall|i: int|
            0 <= i < restored@.len() ==> (#[trigger] call.volumes_created_for_launch@[i])@
                == restored@[i]@,
{
    let kept = call.volumes_created_for_launch@;
    assert(text::texts(kept).len() == kept.len());
    assert(text::texts(restored@).len() == restored@.len());
    assert forall|i: int| 0 <= i < restored@.len() implies (#[trigger] kept[i])@ == restored@[i]@ by {
        assert(text::texts(kept)[i] == text::texts(restored@)[i]);
    }
}

/// From the request to the orchestrator nothing is lost: what is launched with the
/// mounts of a request has the options that the request asked for.
pub proof fn law_asked_options_reach_the_orchestrator<S, L, C, D>(
    body: NewSandbox,
    sandbox_id: SandboxId,
    snapshot: S,
    kept: Vec<SnapshotVolume<L>>,
    rules: SandboxNetworkEgressPolicy,
    configured: bool,
    normalized: Vec<Result<String, String>>,
    max_mounts: usize,
    draft: WarmDraft<S>,
    mounts: Option<TextMap>,
    restored: Vec<String>,
    prepared: PreparedVolumeMounts<D>,
    call: LaunchCall<S, C, D>,
    launch: WarmLaunch,
)
    requires
        call_ensures(
            create::create_warm_sandbox::<S, L>,
            (
                body,
                sandbox_id,
                SnapshotLoad::Found(snapshot, kept),
                Ok(rules),
                configured,
                normalized,
                max_mounts,
            ),
            WarmStep::Mount(draft, mounts, restored),
        ),
        call_ensures(
            WarmDraft::<S>::prepared::<C, D>,
            (draft, restored, Ok(prepared)),
            Ok((call, launch)),
        ),
    ensures
        call.sandbox_id == sandbox_id,
        call.request.source == SandboxLaunchSource::<S, C, D>::Snapshot(snapshot),
        options_of_warm(call.request.options, body, rules),
        call.request.volume_mounts == prepared.mounts,
        call.volumes_created_for_launch@.len() == 0,
{
    assert(text::texts(call.volumes_created_for_launch@).len()
        == call.volumes_created_for_launch@.len());
    assert(text::texts(restored@).len() == restored@.len());
}

/// Where mounts could not be prepared, the volumes that were restored for the
/// launch are taken off the sandbox and then deleted, and no other volume is; the
/// reply tells the failure of that cleanup, or else why the mounts failed.
pub proof fn law_unprepared_launch_removes_what_was_restored<S, C, D>(
    draft: WarmDraft<S>,
    restored: Vec<String>,
    error: ApiError,
    step: Result<(LaunchCall<S, C, D>, WarmLaunch), Unprepared>,
)
    requires
        call_ensures(WarmDraft::<S>::prepared::<C, D>, (draft, restored, Err(error)), step),
    ensures
        step matches Err(unprepared) && {
            let calls = unprepared.cleanup.remaining();
            &&& unprepared.error == error
            &&& unprepared.cleanup.is_strict()
            &&& unprepared.cleanup.failure() is None
            &&& calls.len() == 1 + restored@.len()
            &&& calls[0] == (CallView::ReleaseOwner {
                owner: draft.sandbox_id.text(),
                volume_ids: text::texts(restored@),
            })
            &&& forall|i: int|
                0 <= i < restored@.len() ==> calls[i + 1] == (CallView::Delete {
                    volume_id: (#[trigger] restored@[i])@,
                })
        },
{
    assert(text::texts(restored@).len() == restored@.len());
}

/// The reply to a launch whose mounts failed: a failed cleanup is a server error;
/// otherwise 409 is a conflict, from 500 on it is a server error, and any other is
/// the client's fault.
pub proof fn law_unprepared_launch_is_answered(unprepared: Unprepared, reply: Reply<CreatedSandbox>)
    requires
        call_ensures(Unprepared::finish, (unprepared,), reply),
    ensures
        unprepared.cleanup.failure() matches Some(error) ==> reply_laws::tells(
            reply,
            Status::ServerError,
            error,
        ),
        unprepared.cleanup.failure() is None ==> reply_laws::tells(
            reply,
            if unprepared.error.code >= 500 {
                Status::ServerError
            } else if unprepared.error.code == 409 {
                Status::Conflict
            } else {
                Status::BadRequest
            },
            unprepared.error,
        ),
{
}

/// Whether a reply shows a created sandbox, and names the same one in its header.
pub open spec fn announces(reply: Reply<CreatedSandbox>, m: SandboxMetadata, access: SandboxAccess) -> bool {
    reply matches Reply::Created(created) && {
        &&& created.body.sandbox_id@ == m.id.text()
        &&& created.body.template_id == m.snapshot_id
        &&& created.body.alias == m.snapshot_alias
        &&& created.body.envd_version == m.envd_version
        &&& created.body.envd_access_token == access.envd_access_token
        &&& created.x_agentenv_sandbox_id matches Some(id) && id@ == created.body.sandbox_id@
    }
}

/// A sandbox that was launched is announced under its own identity, in the body
/// and in the header alike, and none of its volumes is touched.
pub proof fn law_launched_sandbox_is_announced(
    warm: WarmLaunch,
    cold: ColdLaunch,
    m: SandboxMetadata,
    access: SandboxAccess,
    warm_step: LaunchStep,
    cold_step: LaunchStep,
)
    requires
        call_ensures(WarmLaunch::launched, (warm, Ok((m, access))), warm_step),
        call_ensures(ColdLaunch::launched, (cold, Ok((m, access))), cold_step),
    ensures
        warm_step matches LaunchStep::Answer(reply) && announces(reply, m, access),
        cold_step matches LaunchStep::Answer(reply) && announces(reply, m, access),
{
}

/// Whether calls give up what was reserved for a failed launch: nothing while its
/// runtime may still run; otherwise the backings of its volumes are published
/// first, then its owner is taken off them, and only then what was restored for it
/// is deleted, and nothing else.
pub open spec fn gives_up(
    calls: Seq<CallView>,
    owner: Option<Seq<char>>,
    stopped: bool,
    reserved: Seq<Seq<char>>,
    restored: Seq<Seq<char>>,
) -> bool {
    let first: int = if owner is Some {
        2
    } else {
        0
    };
    &&& !stopped ==> calls.len() == 0
    &&& stopped ==> {
        &&& calls.len() == first + restored.len()
        &&& owner matches Some(owner) ==> {
            &&& calls[0] == (CallView::RecoverAndPublish { owner, volume_ids: reserved })
            &&& calls[1] == (CallView::ReleaseOwner { owner, volume_ids: reserved })
        }
        &&& forall|i: int|
            0 <= i < restored.len() ==> calls[first + i] == (CallView::Delete {
                volume_id: #[trigger] restored[i],
            })
    }
}

/// A launch from a snapshot that failed gives up what was reserved and restored
/// for it as far as its stop is known, and is an internal error.
pub proof fn law_failed_warm_launch_gives_up_its_volumes<S, C, D>(
    draft: WarmDraft<S>,
    restored: Vec<String>,
    prepared: PreparedVolumeMounts<D>,
    call: LaunchCall<S, C, D>,
    launch: WarmLaunch,
    failure: LaunchFailure,
    step: LaunchStep,
)
    requires
        call_ensures(
            WarmDraft::<S>::prepared::<C, D>,
            (draft, restored, Ok(prepared)),
            Ok((call, launch)),
        ),
        call_ensures(WarmLaunch::launched, (launch, Err(failure)), step),
    ensures
        step matches LaunchStep::Release(run, reply) && {
            &&& run.is_strict()
            &&& run.failure() is None
            &&& gives_up(
                run.remaining(),
                match prepared.owner {
                    Some(owner) => Some(owner@),
                    None => None,
                },
                failure.runtime_stopped,
                text::texts(prepared.volume_ids@),
                text::texts(restored@),
            )
            &&& reply_laws::tells(reply, Status::ServerError, failure.error.internal)
        },
{
}

/// A launch from an image that failed gives up what was reserved for it as far as
/// its stop is known, and deletes nothing. A request that the device daemon found
/// invalid is the client's fault, and anything else an internal error.
pub proof fn law_failed_cold_launch_gives_up_its_volumes<S, C, D>(
    mount: ColdMount<C, D>,
    prepared: PreparedVolumeMounts<D>,
    call: LaunchCall<S, C, D>,
    launch: ColdLaunch,
    failure: LaunchFailure,
    step: LaunchStep,
)
    requires
        call_ensures(ColdMount::<C, D>::prepared::<S>, (mount, Ok(prepared)), Ok((call, launch))),
        call_ensures(ColdLaunch::launched, (launch, Err(failure)), step),
    ensures
        step matches LaunchStep::Release(run, reply) && {
            &&& run.is_strict()
            &&& run.failure() is None
            &&& gives_up(
                run.remaining(),
                match prepared.owner {
                    Some(owner) => Some(owner@),
                    None => None,
                },
                failure.runtime_stopped,
                text::texts(prepared.volume_ids@),
                Seq::<Seq<char>>::empty(),
            )
            &&& match failure.error.kind {
                OrchestratorErrorKind::SandboxOperationFailed {
                    invalid_request: Some(message),
                    ..
                } => reply_laws::refused(reply, Status::BadRequest, 400, message@),
                _ => reply_laws::tells(reply, Status::ServerError, failure.error.internal),
            }
        },
{
}

/// Whether the resources that a request and the configuration give are in order:
/// at least one processor, 128 MiB of memory, and a disk of whole GiB where one is
/// asked for.
pub open spec fn resources_in_order(cpu: u32, memory: u32, disk: Option<u32>) -> bool {
    &&& cpu >= 1
    &&& memory >= 128
    &&& disk matches Some(size) ==> size >= 1024 && size % 1024 == 0
}

/// A request for a sandbox from an image gets the resources that it asks for, what
/// it leaves out from the configuration, and a disk as the image has it. Resources
/// that are not in order are the client's fault.
pub proof fn law_cold_sandbox_gets_the_resources_asked_for<C>(
    body: NewColdSandbox,
    rootfs: ResolvedBlockImage<C>,
    default_cpu: u32,
    default_mem: u32,
    result: Result<ColdDraft<C>, Reply<CreatedSandbox>>,
    resources: Result<SandboxResources, ApiError>,
)
    requires
        call_ensures(
            create::sandboxes_cold_post::<C>,
            (body, ImageResolution::Resolved(rootfs), default_cpu, default_mem),
            result,
        ),
        call_ensures(
            requests::cold_start_resources,
            (&body, default_cpu, default_mem),
            resources,
        ),
    ensures
        ({
            let cpu = match body.cpu_count {
                Some(count) => count,
                None => default_cpu,
            };
            let memory = match body.memory_mb {
                Some(size) => size,
                None => default_mem,
            };
            &&& result is Ok <==> resources_in_order(cpu, memory, body.disk_size_mb)
            &&& resources is Ok <==> result is Ok
            &&& result matches Ok(draft) ==> {
                &&& draft.rootfs == rootfs
                &&& draft.body == body
                &&& resources == Ok::<SandboxResources, ApiError>(draft.resources)
                &&& draft.resources.cpu_count == cpu
                &&& draft.resources.memory_mib == memory
                &&& body.disk_size_mb is Some ==> draft.resources.disk_size_mib
                    == body.disk_size_mb->0
                &&& body.disk_size_mb is None ==> draft.resources.disk_size_mib == 0
            }
            &&& result matches Err(reply) ==> {
                &&& resources matches Err(error) && reply_laws::tells(
                    reply,
                    Status::BadRequest,
                    error,
                )
                &&& reply_laws::refused(
                    reply,
                    Status::BadRequest,
                    400,
                    if cpu == 0 {
                        "cpuCount must be greater than 0"@
                    } else if memory < 128 {
                        "memoryMB must be at least 128"@
                    } else {
                        "diskSizeMB must be at least 1024 and divisible by 1024"@
                    },
                )
            }
        }),
{
}

/// An image that could not be resolved launches nothing: it is the client's fault
/// where the request is to blame, and a server error that names the image
/// otherwise.
pub proof fn law_unresolved_image_launches_nothing<C>(
    body: NewColdSandbox,
    message: String,
    default_cpu: u32,
    default_mem: u32,
    blamed: Result<ColdDraft<C>, Reply<CreatedSandbox>>,
    failed: Result<ColdDraft<C>, Reply<CreatedSandbox>>,
)
    requires
        call_ensures(
            create::sandboxes_cold_post::<C>,
            (body, ImageResolution::UserError(message), default_cpu, default_mem),
            blamed,
        ),
        call_ensures(
            create::sandboxes_cold_post::<C>,
            (body, ImageResolution::Failed(message), default_cpu, default_mem),
            failed,
        ),
    ensures
        blamed matches Err(reply) && reply_laws::refused(reply, Status::BadRequest, 400, message@),
        failed matches Err(reply) && reply_laws::refused(
            reply,
            Status::ServerError,
            500,
            "resolve sandbox rootfs image '"@ + body.image@ + "': "@ + message@,
        ),
{
}

/// A request from an image that is in order goes on with what it asked for: each
/// option from the field of that name, its drives, its boot arguments and its
/// mounts. One that is not is the client's fault; drives that could not be
/// resolved are told by their own error.
pub proof fn law_cold_sandbox_is_launched_as_asked<C, D>(
    draft: ColdDraft<C>,
    drives: Vec<ResolvedAttachedDrive<D>>,
    egress: Result<SandboxNetworkEgressPolicy, String>,
    configured: bool,
    step: Result<(ColdMount<C, D>, Option<TextMap>), Reply<CreatedSandbox>>,
    error: ApiError,
    failed: Result<(ColdMount<C, D>, Option<TextMap>), Reply<CreatedSandbox>>,
)
    requires
        call_ensures(ColdDraft::<C>::attached::<D>, (draft, Ok(drives), egress, configured), step),
        call_ensures(ColdDraft::<C>::attached::<D>, (draft, Err(error), egress, configured), failed),
    ensures
        step is Ok <==> request_in_order(egress, draft.body.custom_extension_params, configured),
        step matches Ok((mount, mounts)) ==> {
            &&& ident::is_v7(mount.sandbox_id.bits)
            &&& mount.rootfs == draft.rootfs
            &&& mount.resources == draft.resources
            &&& mount.attached == drives
            &&& mount.extra_boot_args == draft.body.extra_boot_args
            &&& options_of_cold(mount.options, draft.body, egress->Ok_0)
            &&& mounts == draft.body.volume_mounts
        },
        step matches Err(reply) ==> (reply matches Reply::Refused(status, told) && status is BadRequest
            && told.code == 400),
        failed matches Err(reply) && reply_laws::tells(
            reply,
            if error.code >= 500 {
                Status::ServerError
            } else {
                Status::BadRequest
            },
            error,
        ),
{
    if let Ok(rules) = egress {
        lemma_rules(rules);
    }
}

/// What is launched from an image is the image that was resolved, with its
/// context, the resources and the options of the request, the drives of the
/// request before those of its volumes, and nothing of a snapshot.
pub proof fn law_prepared_mount_is_launched<S, C, D>(
    mount: ColdMount<C, D>,
    prepared: PreparedVolumeMounts<D>,
    call: LaunchCall<S, C, D>,
    launch: ColdLaunch,
)
    requires
        call_ensures(ColdMount::<C, D>::prepared::<S>, (mount, Ok(prepared)), Ok((call, launch))),
    ensures
        call.sandbox_id == mount.sandbox_id,
        call.request.options == mount.options,
        call.request.volume_mounts == prepared.mounts,
        call.volumes_created_for_launch@.len() == 0,
        call.request.extra_drives@.len() == 0,
        !call.request.extra_drives_in_snapshot,
        call.request.source matches SandboxLaunchSource::Image {
            image_ref,
            overlaybd_config_path,
            context,
            resources,
            extra_drives,
            extra_boot_args,
            image_configs,
        } && {
            let n = mount.attached@.len();
            &&& image_ref == mount.rootfs.image_ref
            &&& overlaybd_config_path == mount.rootfs.overlaybd_config_path
            &&& context == mount.rootfs.base_context
            &&& resources == Some(mount.resources)
            &&& extra_boot_args == mount.extra_boot_args
            &&& extra_drives@.len() == n + prepared.drives@.len()
            &&& forall|i: int|
                0 <= i < n ==> extra_drives@[i] == (#[trigger] mount.attached@[i]).drive
            &&& forall|i: int|
                0 <= i < prepared.drives@.len() ==> extra_drives@[n + i]
                    == #[trigger] prepared.drives@[i]
        },
{
    if let SandboxLaunchSource::Image { extra_drives, .. } = call.request.source {
        let own = create::drives_of(mount.attached@);
        assert(own.len() == mount.attached@.len());
        assert forall|i: int| 0 <= i < mount.attached@.len() implies extra_drives@[i] == (
        #[trigger] mount.attached@[i]).drive by {
            assert(extra_drives@[i] == own[i]);
        }
    }
}

/// Mounts that could not be prepared launch nothing, and the reply tells why: 409
/// as a conflict, from 500 on as a server error, any other as the client's fault.
pub proof fn law_unprepared_mount_launches_nothing<S, C, D>(
    mount: ColdMount<C, D>,
    error: ApiError,
    step: Result<(LaunchCall<S, C, D>, ColdLaunch), Reply<CreatedSandbox>>,
)
    requires
        call_ensures(ColdMount::<C, D>::prepared::<S>, (mount, Err(error)), step),
    ensures
        step matches Err(reply) && reply_laws::tells(
            reply,
            if error.code >= 500 {
                Status::ServerError
            } else if error.code == 409 {
                Status::Conflict
            } else {
                Status::BadRequest
            },
            error,
        ),
{
}

/// How many of some drives come with a configuration.
pub open spec fn configured_before(attached: Seq<AttachedImage>, i: int) -> int {
    attached.take(i).filter(|image: AttachedImage| image.raw_config is Some).len() as int
}

proof fn lemma_entries(entries: Seq<ImageConfigEntry>, attached: Seq<AttachedImage>)
    requires
        requests::attached_entries(entries, attached),
    ensures
        entries.len() == attached.filter(|image: AttachedImage| image.raw_config is Some).len(),
        forall|i: int|
            0 <= i < attached.len() && (#[trigger] attached[i]).raw_config is Some ==> {
                let place = configured_before(attached, i);
                &&& 0 <= place < entries.len()
                &&& entries[place].drive_id == Some(attached[i].drive_id)
                &&& entries[place].mount_path == attached[i].mount_path
                &&& Some(entries[place].config) == attached[i].raw_config
            },
    decreases attached.len(),
{
    reveal(Seq::filter);
    if attached.len() > 0 {
        let rest = attached.drop_last();
        let last = attached.last();
        let shorter = if last.raw_config is Some {
            entries.drop_last()
        } else {
            entries
        };
        lemma_entries(shorter, rest);
        assert forall|i: int|
            0 <= i < attached.len() && (#[trigger] attached[i]).raw_config is Some implies {
            let place = configured_before(attached, i);
            &&& 0 <= place < entries.len()
            &&& entries[place].drive_id == Some(attached[i].drive_id)
            &&& entries[place].mount_path == attached[i].mount_path
            &&& Some(entries[place].config) == attached[i].raw_config
        } by {
            if i < rest.len() {
                assert(attached.take(i) =~= rest.take(i));
                assert(rest[i] == attached[i]);
                assert(configured_before(attached, i) == configured_before(rest, i));
            } else {
                assert(attached.take(i) =~= rest);
            }
        }
    }
}

/// The configuration of the root file system, where it is known, comes first and
/// is no drive's; after it comes that of every attached drive that has one, in the
/// order of the drives, each with the identity and the mount path of its drive.
pub proof fn law_image_configs_are_those_of_the_drives(
    rootfs: Option<Json>,
    attached: Vec<AttachedImage>,
    entries: Vec<ImageConfigEntry>,
    i: int,
)
    requires
        call_ensures(requests::build_image_configs, (rootfs, attached), entries),
    ensures
        ({
            let first: int = if rootfs is Some {
                1
            } else {
                0
            };
            &&& entries@.len() == first + attached@.filter(
                |image: AttachedImage| image.raw_config is Some,
            ).len()
            &&& rootfs matches Some(config) ==> entries@[0].drive_id is None
                && entries@[0].mount_path@ == "/"@ && entries@[0].config == config
            &&& 0 <= i < attached@.len() && attached@[i].raw_config is Some ==> {
                let entry = entries@[first + configured_before(attached@, i)];
                &&& entry.drive_id == Some(attached@[i].drive_id)
                &&& entry.mount_path == attached@[i].mount_path
                &&& Some(entry.config) == attached@[i].raw_config
            }
        }),
{
    if rootfs is Some {
        lemma_entries(entries@.skip(1), attached@);
        if 0 <= i < attached@.len() && attached@[i].raw_config is Some {
            let place = configured_before(attached@, i);
            assert(entries@.skip(1)[place] == entries@[1 + place]);
        }
    } else {
        lemma_entries(entries@, attached@);
    }
}

/// Parameters of the custom extension are refused exactly where there are any and
/// no extension is configured.
pub proof fn law_extension_params_need_an_extension(
    params: Option<Vec<(String, Json)>>,
    configured: bool,
    result: Result<(), String>,
)
    requires
        call_ensures(requests::validate_custom_extension_params, (&params, configured), result),
    ensures
        result is Ok <==> configured || params is None || (params->0)@.len() == 0,
        result matches Err(message) ==> message@
            == "customExtensionParams requires the custom extension to be configured ([custom_extension].url)"@,
{
}

/// A number of seconds keeps its value, a sandbox is paused when its time is up
/// unless its request forbids that, and an empty environment is none.
pub proof fn law_request_fields_are_read(
    secs: Option<u32>,
    duration: Option<u64>,
    auto_pause: Option<bool>,
    action: SandboxTimeoutAction,
    env_vars: Option<TextMap>,
    kept: Option<TextMap>,
)
    requires
        call_ensures(requests::duration_from_secs, (secs,), duration),
        call_ensures(requests::timeout_action, (auto_pause,), action),
        call_ensures(requests::env_vars_of, (env_vars,), kept),
    ensures
        duration is Some <==> secs is Some,
        secs is Some ==> duration->0 == secs->0,
        action is Delete <==> auto_pause == Some(false),
        action is Pause <==> auto_pause != Some(false),
        has_keys(env_vars) ==> kept == env_vars,
        !has_keys(env_vars) ==> kept is None,
{
}

/// A reply shows the parameters of the custom extension as they are kept, and none
/// where there are none.
pub proof fn law_absent_params_are_shown_empty(
    params: Option<Vec<(String, Json)>>,
    shown: Vec<(String, Json)>,
)
    requires
        call_ensures(requests::params_map_to_model, (params,), shown),
    ensures
        params is Some ==> shown == params->0,
        params is None ==> shown@.len() == 0,
{
}

/// A request that names an image and nothing else asks for nothing else.
pub proof fn law_new_request_leaves_everything_open(image: String, body: NewColdSandbox)
    requires
        call_ensures(NewColdSandbox::new, (image,), body),
    ensures
        body.image == image,
        body.cpu_count is None && body.memory_mb is None && body.disk_size_mb is None,
        body.extra_boot_args is None && body.timeout is None && body.auto_pause is None,
        body.auto_resume is None && body.secure is None && body.allow_internet_access is None,
        body.network is None && body.metadata is None && body.env_vars is None,
        body.volume_mounts is None && body.custom_extension_params is None,
{
}

} // verus!
