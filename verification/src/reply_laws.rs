//! What holds of the replies of the sandbox API: how they show sandboxes, lists
//! and errors, and how replies to different requests relate.

use vstd::prelude::*;

use crate::api;
use crate::api::{ApiError, OrchestratorError, OrchestratorErrorKind, Reply, Status};
use crate::handlers;
use crate::handlers::{ConnectStep, KeepAlive};
use crate::ident::SandboxId;
use crate::json::Json;
use crate::listing;
use crate::listing::{
    ListCursor, ListDraft, ListPage, ListQuery, ListTotal, SandboxListFilter,
};
use crate::models;
use crate::models::{
    ListedSandbox, PublicState, Sandbox, SandboxAccess, SandboxDetail, SandboxMetadata,
    SandboxOnTimeout, SandboxState, Timestamp,
};
use crate::network;
use crate::network::{
    BaseSandboxNetworkPolicy, Cidr, Nullable, SandboxNetworkConfig, SandboxNetworkEgressPolicy,
    SandboxNetworkPolicy, SandboxNetworkUpdateConfig, V4Cidr, V6Cidr,
};
use crate::text;
use crate::text_map;
use crate::text_map::TextMap;

verus! {

/// Whether a reply refuses a request with a status, a code and a message.
pub open spec fn refused<T>(reply: Reply<T>, status: Status, code: int, message: Seq<char>) -> bool {
    reply matches Reply::Refused(given, error) && given == status && error.code == code
        && error.message@ == message
}

/// Whether a reply refuses a request with a status, and with what is said of an
/// error.
pub open spec fn tells<T>(reply: Reply<T>, status: Status, told: ApiError) -> bool {
    refused(reply, status, told.code as int, told.message@)
}

/// Whether a reply says that a sandbox is not there.
pub open spec fn says_not_found<T>(reply: Reply<T>, id: Seq<char>) -> bool {
    refused(reply, Status::NotFound, 404, "sandbox "@ + id + " not found"@)
}

/// Whether a shown state is the one that clients know a state by: a sandbox that
/// is being paused, snapshotted or forked counts as paused, one whose cleanup is
/// owed as such, and any other as running.
pub open spec fn is_known_as(state: SandboxState, shown: PublicState) -> bool {
    &&& shown is CleanupPending <==> state is CleanupPending
    &&& shown is Paused <==> (state is Pausing || state is Paused || state is Snapshotting
        || state is Forking)
    &&& shown is Running <==> (state is Creating || state is Resuming || state is Running
        || state is Killing)
}

/// Every reply shows a state by the name that clients know it by: a list, the
/// detail, and each entry of a page.
pub proof fn law_states_are_shown_by_their_names(
    m: SandboxMetadata,
    access: SandboxAccess,
    shown: PublicState,
    listed: ListedSandbox,
    detail: SandboxDetail,
)
    requires
        call_ensures(models::public_state, (m.state,), shown),
        call_ensures(models::listed_sandbox, (m,), listed),
        call_ensures(models::sandbox_detail_model, (m, access), detail),
    ensures
        is_known_as(m.state, shown),
        is_known_as(m.state, listed.state),
        is_known_as(m.state, detail.state),
        listed.state == detail.state,
{
}

/// The reply to a request for a sandbox shows the state of the one that was looked
/// up, by the name that clients know it by.
pub proof fn law_detail_shows_the_state_looked_up(
    sandbox_id: SandboxId,
    m: SandboxMetadata,
    access: SandboxAccess,
    reply: Reply<SandboxDetail>,
)
    requires
        call_ensures(
            handlers::sandboxes_sandbox_id_get,
            (sandbox_id, Ok(Some((m, access)))),
            reply,
        ),
    ensures
        reply matches Reply::Success(detail) && {
            &&& is_known_as(m.state, detail.state)
            &&& detail.sandbox_id@ == m.id.text()
            &&& detail.metadata == m.user_metadata
            &&& detail.template_id == m.snapshot_id
            &&& detail.started_at == m.created_at
            &&& detail.envd_access_token == access.envd_access_token
        },
{
}

/// The detail of a sandbox and its entry in a list agree on everything that both
/// show, and what they show is what the orchestrator knows.
pub proof fn law_list_and_detail_agree(
    m: SandboxMetadata,
    access: SandboxAccess,
    listed: ListedSandbox,
    detail: SandboxDetail,
)
    requires
        call_ensures(models::listed_sandbox, (m,), listed),
        call_ensures(models::sandbox_detail_model, (m, access), detail),
    ensures
        listed.template_id == detail.template_id && detail.template_id == m.snapshot_id,
        listed.alias == detail.alias && detail.alias == m.snapshot_alias,
        listed.sandbox_id@ == detail.sandbox_id@ && detail.sandbox_id@ == m.id.text(),
        listed.client_id@ == detail.client_id@ && detail.client_id@ == ""@,
        listed.started_at == detail.started_at && detail.started_at == m.created_at,
        listed.end_at == detail.end_at,
        listed.cpu_count == detail.cpu_count && detail.cpu_count == m.resources.cpu_count,
        listed.memory_mb == detail.memory_mb && detail.memory_mb == m.resources.memory_mib,
        listed.disk_size_mb == detail.disk_size_mb && detail.disk_size_mb
            == m.resources.disk_size_mib,
        listed.metadata == detail.metadata && detail.metadata == m.user_metadata,
        listed.state == detail.state,
        listed.envd_version == detail.envd_version && detail.envd_version == m.envd_version,
        listed.volume_mounts == detail.volume_mounts,
{
}

/// A sandbox that expires ends when it expires; one that does not ends a hundred
/// years of 365 days after the start of 1970.
pub proof fn law_end_is_the_expiry(
    m: SandboxMetadata,
    access: SandboxAccess,
    listed: ListedSandbox,
    detail: SandboxDetail,
    start: Timestamp,
    end: Timestamp,
)
    requires
        call_ensures(models::listed_sandbox, (m,), listed),
        call_ensures(models::sandbox_detail_model, (m, access), detail),
        call_ensures(models::started_at, (m.created_at,), start),
        call_ensures(models::end_at, (m.expires_at,), end),
    ensures
        start == m.created_at,
        end == listed.end_at && end == detail.end_at,
        m.expires_at matches Some(at) ==> end == at,
        m.expires_at is None ==> end.secs == 100 * 365 * 24 * 3600 && end.nanos == 0,
{
}

/// Mounts are shown exactly if there are any, and then as they are.
pub proof fn law_mounts_are_shown_where_there_are_any(
    m: SandboxMetadata,
    access: SandboxAccess,
    listed: ListedSandbox,
    detail: SandboxDetail,
    none: bool,
    shown: Option<TextMap>,
)
    requires
        call_ensures(models::listed_sandbox, (m,), listed),
        call_ensures(models::sandbox_detail_model, (m, access), detail),
        call_ensures(TextMap::is_empty, (&m.volume_mounts,), none),
        call_ensures(models::volume_mounts_model, (m.volume_mounts,), shown),
    ensures
        none ==> shown is None,
        !none ==> shown == Some(m.volume_mounts),
        listed.volume_mounts == shown,
        detail.volume_mounts == shown,
{
}

/// The detail of a sandbox and the reply to its creation, to resuming it and to
/// connecting to it name the same sandbox, with the same way to reach it.
pub proof fn law_detail_and_creation_agree(
    m: SandboxMetadata,
    access: SandboxAccess,
    sandbox: Sandbox,
    detail: SandboxDetail,
)
    requires
        call_ensures(models::sandbox_model, (m, access), sandbox),
        call_ensures(models::sandbox_detail_model, (m, access), detail),
    ensures
        sandbox.template_id == detail.template_id && sandbox.template_id == m.snapshot_id,
        sandbox.sandbox_id@ == detail.sandbox_id@ && sandbox.sandbox_id@ == m.id.text(),
        sandbox.alias == detail.alias && sandbox.alias == m.snapshot_alias,
        sandbox.client_id@ == detail.client_id@,
        sandbox.envd_version == detail.envd_version && sandbox.envd_version == m.envd_version,
        sandbox.envd_access_token == detail.envd_access_token && sandbox.envd_access_token
            == access.envd_access_token,
        sandbox.domain == detail.domain,
        access.proxy_domains@.len() == 0 ==> sandbox.domain is None,
        access.proxy_domains@.len() > 0 ==> sandbox.domain == Some(
            Nullable::Present(access.proxy_domains@[0]),
        ),
{
}

/// The token for private traffic is shown exactly where public traffic is not
/// allowed, which is where it is asked for.
pub proof fn law_traffic_token_is_shown_where_it_is_needed(
    m: SandboxMetadata,
    access: SandboxAccess,
    sandbox: Sandbox,
    needed: bool,
)
    requires
        call_ensures(models::sandbox_model, (m, access), sandbox),
        call_ensures(models::needs_traffic_token, (&m,), needed),
    ensures
        needed <==> !m.network_policy.allow_public_traffic,
        needed ==> sandbox.traffic_access_token == Some(
            Nullable::Present(access.traffic_access_token),
        ),
        !needed ==> sandbox.traffic_access_token == Some(Nullable::<String>::Null),
{
}

/// The detail shows what happens over time as the sandbox was asked for: whether
/// it resumes by itself, and whether it is paused or removed when its time is up.
pub proof fn law_lifecycle_is_shown(
    m: SandboxMetadata,
    access: SandboxAccess,
    detail: SandboxDetail,
    shown: SandboxOnTimeout,
)
    requires
        call_ensures(models::sandbox_detail_model, (m, access), detail),
        call_ensures(models::on_timeout, (m.timeout_action,), shown),
    ensures
        shown is Pause <==> m.timeout_action is Pause,
        shown is Kill <==> m.timeout_action is Delete,
        detail.lifecycle matches Some(lifecycle) && lifecycle.auto_resume == m.auto_resume
            && lifecycle.on_timeout == shown,
{
}

/// Whether a list shows destinations: networks by their texts, then names.
pub open spec fn lists_destinations(list: Seq<String>, cidrs: Seq<Cidr>, domains: Seq<String>) -> bool {
    &&& list.len() == cidrs.len() + domains.len()
    &&& forall|i: int| 0 <= i < cidrs.len() ==> (#[trigger] list[i])@ == network::cidr_text(cidrs[i])
    &&& forall|i: int|
        0 <= i < domains.len() ==> list[cidrs.len() + i]@ == (#[trigger] domains[i])@
}

/// Whether a configuration shows the rules of a policy: a list is left out exactly
/// if there is no rule for it, and what is allowed is never shown as denied.
pub open spec fn shows_rules(config: SandboxNetworkConfig, policy: SandboxNetworkPolicy) -> bool {
    let egress = policy.egress;
    &&& config.allow_public_traffic == Some(policy.allow_public_traffic)
    &&& config.mask_request_host is None
    &&& config.allow_out is None <==> egress.allowed_cidrs@.len() == 0
        && egress.allowed_domains@.len() == 0
    &&& config.allow_out matches Some(list) ==> lists_destinations(
        list@,
        egress.allowed_cidrs@,
        egress.allowed_domains@,
    )
    &&& config.deny_out is None <==> egress.denied_cidrs@.len() == 0
    &&& config.deny_out matches Some(list) ==> lists_destinations(
        list@,
        egress.denied_cidrs@,
        Seq::<String>::empty(),
    )
}

proof fn lemma_shows_rules(config: SandboxNetworkConfig, policy: SandboxNetworkPolicy)
    requires
        config.allow_public_traffic == Some(policy.allow_public_traffic),
        config.mask_request_host is None,
        network::optional_texts(config.allow_out) == network::shown_allow_out(policy.egress),
        network::optional_texts(config.deny_out) == network::shown_deny_out(policy.egress),
    ensures
        shows_rules(config, policy),
{
    let egress = policy.egress;
    if let Some(list) = config.allow_out {
        let all = network::cidr_texts(egress.allowed_cidrs@) + text::texts(egress.allowed_domains@);
        assert(text::texts(list@) == all);
        assert(text::texts(list@).len() == list@.len());
        assert forall|i: int| 0 <= i < egress.allowed_cidrs@.len() implies (
        #[trigger] list@[i])@ == network::cidr_text(egress.allowed_cidrs@[i]) by {
            assert(text::texts(list@)[i] == list@[i]@);
        }
        assert forall|i: int| 0 <= i < egress.allowed_domains@.len() implies list@[
            egress.allowed_cidrs@.len() + i
        ]@ == (#[trigger] egress.allowed_domains@[i])@ by {
            let k: int = egress.allowed_cidrs@.len() + i;
            assert(text::texts(list@)[k] == list@[k]@);
        }
    }
    if let Some(list) = config.deny_out {
        assert(text::texts(list@) == network::cidr_texts(egress.denied_cidrs@));
        assert(text::texts(list@).len() == list@.len());
        assert forall|i: int| 0 <= i < egress.denied_cidrs@.len() implies (
        #[trigger] list@[i])@ == network::cidr_text(egress.denied_cidrs@[i]) by {
            assert(text::texts(list@)[i] == list@[i]@);
        }
    }
}

/// The detail shows the network of a sandbox exactly if it is restricted, and then
/// every rule of its policy: no rule is lost, added or turned around.
pub proof fn law_network_is_shown_where_it_is_restricted(
    m: SandboxMetadata,
    access: SandboxAccess,
    detail: SandboxDetail,
    config: SandboxNetworkConfig,
)
    requires
        call_ensures(models::sandbox_detail_model, (m, access), detail),
        call_ensures(network::network_config, (&m.network_policy,), config),
    ensures
        shows_rules(config, m.network_policy),
        detail.network is None <==> m.network_policy.allow_public_traffic
            && m.network_policy.egress.allowed_cidrs@.len() == 0
            && m.network_policy.egress.allowed_domains@.len() == 0
            && m.network_policy.egress.denied_cidrs@.len() == 0,
        detail.network matches Some(shown) ==> shows_rules(shown, m.network_policy),
{
    lemma_shows_rules(config, m.network_policy);
    if let Some(shown) = detail.network {
        lemma_shows_rules(shown, m.network_policy);
    }
}

/// Whether internet access is allowed is shown as the request asked for it: a
/// request that says nothing is shown as saying nothing.
pub proof fn law_internet_access_is_shown_as_asked(
    asked: Option<bool>,
    config: Option<&SandboxNetworkConfig>,
    egress: Result<SandboxNetworkEgressPolicy, String>,
    made: SandboxNetworkPolicy,
    m: SandboxMetadata,
    access: SandboxAccess,
    detail: SandboxDetail,
)
    requires
        call_ensures(network::network_policy_from_create, (asked, config, egress), Ok(made)),
        m.network_policy == made,
        call_ensures(models::sandbox_detail_model, (m, access), detail),
    ensures
        asked matches Some(allowed) ==> detail.allow_internet_access == Some(
            Nullable::Present(allowed),
        ),
        asked is None ==> detail.allow_internet_access == Some(Nullable::<bool>::Null),
        asked == Some(true) ==> made.base_policy is Allow,
        asked == Some(false) ==> made.base_policy is Deny,
        asked is None ==> made.base_policy is Default,
{
}

/// Whether egress rules can be had: no network of IPv6 is among them, and names
/// are allowed only on top of a denial of all of IPv4.
pub open spec fn rules_in_order(rules: SandboxNetworkEgressPolicy) -> bool {
    &&& forall|i: int| 0 <= i < rules.allowed_cidrs@.len() ==> #[trigger] rules.allowed_cidrs@[i] is V4
    &&& forall|i: int| 0 <= i < rules.denied_cidrs@.len() ==> #[trigger] rules.denied_cidrs@[i] is V4
    &&& rules.allowed_domains@.len() > 0 ==> exists|i: int|
        0 <= i < rules.denied_cidrs@.len() && (#[trigger] rules.denied_cidrs@[i] matches Cidr::V4(
            all,
        ) && all.addr() == 0 && all.prefix() == 0)
}

/// A policy is made of the rules as they were read exactly if they are in order,
/// for a new sandbox and for an update alike. A new sandbox allows public traffic
/// unless its request says otherwise; an update always does.
pub proof fn law_policies_are_made_of_rules_in_order(
    asked: Option<bool>,
    config: Option<&SandboxNetworkConfig>,
    body: SandboxNetworkUpdateConfig,
    rules: SandboxNetworkEgressPolicy,
    created: Result<SandboxNetworkPolicy, String>,
    updated: Result<SandboxNetworkPolicy, String>,
    put: Result<SandboxNetworkPolicy, Reply<()>>,
)
    requires
        call_ensures(network::network_policy_from_create, (asked, config, Ok(rules)), created),
        call_ensures(network::network_policy_from_update, (&body, Ok(rules)), updated),
        call_ensures(handlers::network_put_policy, (&body, Ok(rules)), put),
    ensures
        created is Ok <==> rules_in_order(rules),
        updated is Ok <==> rules_in_order(rules),
        put is Ok <==> rules_in_order(rules),
        created matches Ok(policy) ==> policy.egress == rules && (policy.allow_public_traffic <==> (
        config is None || (config->0).allow_public_traffic != Some(false))),
        updated matches Ok(policy) ==> {
            &&& policy.egress == rules
            &&& policy.allow_public_traffic
            &&& body.allow_internet_access == Some(true) <==> policy.base_policy is Allow
            &&& body.allow_internet_access == Some(false) <==> policy.base_policy is Deny
            &&& put == Ok::<SandboxNetworkPolicy, Reply<()>>(policy)
        },
        updated matches Err(message) ==> (put matches Err(reply) && refused(
            reply,
            Status::BadRequest,
            400,
            message@,
        )),
        created matches Err(message) ==> message@ == (if (exists|i: int|
            0 <= i < rules.allowed_cidrs@.len() && #[trigger] rules.allowed_cidrs@[i] is V6)
            || (exists|i: int|
            0 <= i < rules.denied_cidrs@.len() && #[trigger] rules.denied_cidrs@[i] is V6) {
            "IPv6 CIDRs are not supported by the sandbox network API"@
        } else {
            "allowOut contains domains but denyOut is missing 0.0.0.0/0 (ALL_TRAFFIC)"@
        }),
{
    if network::denies_all_traffic(rules) {
        let i = choose|i: int|
            0 <= i < rules.denied_cidrs@.len() && network::is_all_traffic(
                #[trigger] rules.denied_cidrs@[i],
            );
        assert(rules.denied_cidrs@[i] matches Cidr::V4(all) && all.addr() == 0 && all.prefix() == 0);
    }
    if exists|i: int|
        0 <= i < rules.denied_cidrs@.len() && (#[trigger] rules.denied_cidrs@[i] matches Cidr::V4(
            all,
        ) && all.addr() == 0 && all.prefix() == 0) {
        let i = choose|i: int|
            0 <= i < rules.denied_cidrs@.len() && (#[trigger] rules.denied_cidrs@[i] matches Cidr::V4(
                all,
            ) && all.addr() == 0 && all.prefix() == 0);
        assert(network::is_all_traffic(rules.denied_cidrs@[i]));
    }
    assert forall|i: int| 0 <= i < rules.allowed_cidrs@.len() implies (
    #[trigger] rules.allowed_cidrs@[i] is V4) == !(rules.allowed_cidrs@[i] is V6) by {}
    assert forall|i: int| 0 <= i < rules.denied_cidrs@.len() implies (
    #[trigger] rules.denied_cidrs@[i] is V4) == !(rules.denied_cidrs@[i] is V6) by {}
}

/// Rules that could not be read make no policy: the request is refused with the
/// reader's own message.
pub proof fn law_unread_rules_make_no_policy(
    asked: Option<bool>,
    config: Option<&SandboxNetworkConfig>,
    body: SandboxNetworkUpdateConfig,
    error: String,
    created: Result<SandboxNetworkPolicy, String>,
    updated: Result<SandboxNetworkPolicy, String>,
    put: Result<SandboxNetworkPolicy, Reply<()>>,
)
    requires
        call_ensures(network::network_policy_from_create, (asked, config, Err(error)), created),
        call_ensures(network::network_policy_from_update, (&body, Err(error)), updated),
        call_ensures(handlers::network_put_policy, (&body, Err(error)), put),
    ensures
        created == Err::<SandboxNetworkPolicy, String>(error),
        updated == Err::<SandboxNetworkPolicy, String>(error),
        put matches Err(reply) && refused(reply, Status::BadRequest, 400, error@),
{
}

/// A network is had exactly if its prefix length fits, with the address and the
/// prefix length that were given; an IPv4 network is shown in dotted form.
pub proof fn law_networks_are_what_they_were_made_of(
    addr: u32,
    prefix: u8,
    made: Option<V4Cidr>,
    wide: u128,
    wide_made: Option<V6Cidr>,
    text: String,
)
    requires
        call_ensures(V4Cidr::new, (addr, prefix), made),
        call_ensures(V6Cidr::new, (wide, prefix), wide_made),
        made matches Some(network) ==> call_ensures(Cidr::to_text, (Cidr::V4(network),), text),
    ensures
        made is Some <==> prefix <= 32,
        wide_made is Some <==> prefix <= 128,
        made matches Some(network) ==> network.addr() == addr && network.prefix() == prefix,
        wide_made matches Some(network) ==> network.addr() == wide && network.prefix() == prefix,
        made is Some ==> text@ == text::decimal((addr / 0x100_0000) as nat) + "."@
            + text::decimal((addr / 0x1_0000 % 0x100) as nat) + "."@ + text::decimal(
            (addr / 0x100 % 0x100) as nat,
        ) + "."@ + text::decimal((addr % 0x100) as nat) + "/"@ + text::decimal(prefix as nat),
{
}

/// The states that a query for a page asks for are those that replies show by the
/// names in the query, in their order: running sandboxes are asked for exactly if
/// the query names them. A query that names none asks for every state.
pub proof fn law_query_asks_for_the_states_it_names(
    query: ListQuery,
    now: Timestamp,
    filter: SandboxListFilter,
    draft: ListDraft,
    place: int,
    shown: PublicState,
)
    requires
        call_ensures(listing::v2_sandboxes_get, (query, now), Ok((filter, draft))),
        0 <= place < query.state@.len(),
        filter.states matches Some(states) ==> call_ensures(
            models::public_state,
            (states@[place],),
            shown,
        ),
    ensures
        filter.states matches Some(states) && {
            &&& states@.len() == query.state@.len()
            &&& query.state@[place] is Running <==> states@[place] is Running
            &&& query.state@[place] is Paused <==> states@[place] is Paused
            &&& query.state@[place] is CleanupPending <==> states@[place] is CleanupPending
            &&& shown == query.state@[place]
        },
{
    let states = filter.states->0;
    assert(states@[place] == listing::queried_states(query.state@)[place]);
}

/// The orchestrator is asked for running sandboxes exactly if the query names
/// them, and for all states exactly if it names none. Everything else that a query
/// filters by is handed on as it is, and no state is excluded.
pub proof fn law_query_is_handed_on(
    query: ListQuery,
    now: Timestamp,
    filter: SandboxListFilter,
    draft: ListDraft,
    read: Option<TextMap>,
)
    requires
        call_ensures(listing::v2_sandboxes_get, (query, now), Ok((filter, draft))),
        call_ensures(listing::parse_metadata_filter, (&query.metadata,), read),
    ensures
        filter.states is None <==> query.state@.len() == 0,
        filter.states matches Some(states) ==> (states@.contains(SandboxState::Running)
            <==> query.state@.contains(PublicState::Running)),
        filter.excluded_states is None,
        filter.started_after == query.started_after,
        filter.template == query.template,
        filter.user_metadata is Some <==> read is Some,
        filter.user_metadata matches Some(map) ==> map@ == (read->0)@,
{
    if let Some(states) = filter.states {
        assert(states@ == listing::queried_states(query.state@));
        if states@.contains(SandboxState::Running) {
            let i = choose|i: int| 0 <= i < states@.len() && states@[i] == SandboxState::Running;
            assert(query.state@[i] == PublicState::Running);
        }
        if query.state@.contains(PublicState::Running) {
            let i = choose|i: int|
                0 <= i < query.state@.len() && query.state@[i] == PublicState::Running;
            assert(states@[i] == SandboxState::Running);
        }
    }
}

/// A page starts where its token says. A token that cannot be read, or that was
/// issued for the other order, is refused; without one a descending page starts
/// now, and an ascending one at the start of 1970.
pub proof fn law_page_starts_at_its_token(
    query: ListQuery,
    now: Timestamp,
    result: Result<(SandboxListFilter, ListDraft), Reply<ListPage>>,
    list: Vec<SandboxMetadata>,
    whole: Vec<SandboxMetadata>,
    cursor: ListCursor,
    total: ListTotal,
)
    requires
        call_ensures(listing::v2_sandboxes_get, (query, now), result),
        result matches Ok((_, draft)) ==> call_ensures(
            listing::v2_sandboxes_listed,
            (draft, Ok(list)),
            Ok((whole, cursor, total)),
        ),
    ensures
        match query.next_token {
            None => {
                &&& result is Ok
                &&& cursor.descending == !query.ascending
                &&& cursor.value.bits == u128::MAX
                &&& query.ascending ==> cursor.time.secs == 0 && cursor.time.nanos == 0
                &&& !query.ascending ==> cursor.time == now
            },
            Some(Ok(token)) => {
                &&& result is Ok <==> token.descending != query.ascending
                &&& result is Ok ==> cursor == token
                &&& result matches Err(reply) ==> refused(
                    reply,
                    Status::BadRequest,
                    400,
                    "next token was issued for a different sort order"@,
                )
            },
            Some(Err(error)) => result matches Err(reply) && refused(
                reply,
                Status::BadRequest,
                400,
                "invalid next token: "@ + error@,
            ),
        },
        result is Ok ==> whole == list,
{
}

/// The running sandboxes of a list.
pub open spec fn running_of(list: Seq<SandboxMetadata>) -> Seq<SandboxMetadata> {
    list.filter(|m: SandboxMetadata| m.state is Running)
}

proof fn lemma_running_count(list: Seq<SandboxMetadata>)
    ensures
        listing::running_count(list) == running_of(list).len(),
    decreases list.len(),
{
    reveal(Seq::filter);
    if list.len() > 0 {
        lemma_running_count(list.drop_last());
    }
}

/// The total of a page is the number of running sandboxes in the whole list,
/// whatever the page shows of it, as far as 32 bits go. It is left out exactly
/// where the query asks for other states only.
pub proof fn law_page_counts_the_whole_list(
    query: ListQuery,
    now: Timestamp,
    filter: SandboxListFilter,
    draft: ListDraft,
    list: Vec<SandboxMetadata>,
    whole: Vec<SandboxMetadata>,
    cursor: ListCursor,
    total: ListTotal,
    page: Vec<SandboxMetadata>,
    token: Option<String>,
    reply: Reply<ListPage>,
)
    requires
        call_ensures(listing::v2_sandboxes_get, (query, now), Ok((filter, draft))),
        call_ensures(
            listing::v2_sandboxes_listed,
            (draft, Ok(list)),
            Ok((whole, cursor, total)),
        ),
        call_ensures(listing::v2_sandboxes_page, (total, page, token), reply),
    ensures
        reply matches Reply::Success(shown) && {
            let running = running_of(list@).len();
            let asked = query.state@.len() == 0 || query.state@.contains(PublicState::Running);
            &&& shown.x_next_token == token
            &&& shown.x_total_running is Some <==> asked
            &&& shown.x_total_running matches Some(count) ==> if running <= i32::MAX {
                count == running
            } else {
                count == i32::MAX
            }
        },
{
    lemma_running_count(list@);
}

/// Every sandbox of a page, and of the list of running ones, is shown in its
/// place, as a list shows it: none is left out, added or moved.
pub proof fn law_lists_show_every_sandbox(
    total: ListTotal,
    page: Vec<SandboxMetadata>,
    token: Option<String>,
    paged: Reply<ListPage>,
    plain: Reply<Vec<ListedSandbox>>,
    place: int,
    listed: ListedSandbox,
)
    requires
        call_ensures(listing::v2_sandboxes_page, (total, page, token), paged),
        call_ensures(listing::sandboxes_get, (Ok(page),), plain),
        0 <= place < page@.len(),
        call_ensures(models::listed_sandbox, (page@[place],), listed),
    ensures
        paged matches Reply::Success(shown) && {
            &&& shown.body@.len() == page@.len()
            &&& shown.body@[place].sandbox_id@ == page@[place].id.text()
            &&& is_known_as(page@[place].state, shown.body@[place].state)
            &&& alike(shown.body@[place], listed)
        },
        plain matches Reply::Success(shown) && {
            &&& shown@.len() == page@.len()
            &&& alike(shown@[place], listed)
        },
{
    let shown = paged->Success_0;
    assert(models::shows_listed(shown.body@[place], page@[place]));
    let others = plain->Success_0;
    assert(models::shows_listed(others@[place], page@[place]));
}

/// Whether two entries of a list say the same.
pub open spec fn alike(a: ListedSandbox, b: ListedSandbox) -> bool {
    &&& a.template_id == b.template_id
    &&& a.alias == b.alias
    &&& a.sandbox_id@ == b.sandbox_id@
    &&& a.client_id@ == b.client_id@
    &&& a.started_at == b.started_at
    &&& a.end_at == b.end_at
    &&& a.cpu_count == b.cpu_count
    &&& a.memory_mb == b.memory_mb
    &&& a.disk_size_mb == b.disk_size_mb
    &&& a.metadata == b.metadata
    &&& a.state == b.state
    &&& a.envd_version == b.envd_version
    &&& a.volume_mounts == b.volume_mounts
}

/// The list of running sandboxes asks for running ones only, by the metadata of
/// the request and by nothing else.
pub proof fn law_plain_list_asks_for_running_sandboxes(
    metadata: Option<String>,
    filter: SandboxListFilter,
    read: Option<TextMap>,
)
    requires
        call_ensures(listing::sandboxes_get_filter, (&metadata,), filter),
        call_ensures(listing::parse_metadata_filter, (&metadata,), read),
    ensures
        filter.states matches Some(states) && states@.len() == 1 && states@[0] is Running,
        filter.excluded_states is None && filter.started_after is None && filter.template is None,
        filter.user_metadata is Some <==> read is Some,
        filter.user_metadata matches Some(map) ==> map@ == (read->0)@,
        metadata is None ==> filter.user_metadata is None,
{
    let states = filter.states->0;
    assert(states@[0] == seq![SandboxState::Running][0]);
}

/// Whether a pair can be filtered by: neither part is empty.
pub open spec fn is_usable(pair: (Seq<char>, Seq<char>)) -> bool {
    pair.0.len() > 0 && pair.1.len() > 0
}

/// Whether a pair is the last one to be filtered by with its key.
pub open spec fn is_last_usable(pairs: Seq<(Seq<char>, Seq<char>)>, i: int) -> bool {
    &&& 0 <= i < pairs.len()
    &&& is_usable(pairs[i])
    &&& forall|j: int| i < j < pairs.len() && is_usable(#[trigger] pairs[j]) ==> pairs[j].0 != pairs[i].0
}

proof fn lemma_usable(pairs: Seq<(Seq<char>, Seq<char>)>)
    ensures
        ({
            let map = text_map::pairs_map(listing::usable_pairs(pairs));
            &&& forall|i: int| #[trigger]
                is_last_usable(pairs, i) ==> map.contains_key(pairs[i].0) && map[pairs[i].0]
                    == pairs[i].1
            &&& forall|key: Seq<char>| #[trigger]
                map.contains_key(key) ==> exists|i: int| #[trigger]
                    is_last_usable(pairs, i) && pairs[i].0 == key
            &&& listing::usable_pairs(pairs).len() == 0 <==> forall|i: int|
                0 <= i < pairs.len() ==> !is_usable(#[trigger] pairs[i])
        }),
    decreases pairs.len(),
{
    if pairs.len() > 0 {
        let rest = pairs.drop_last();
        let last = pairs.last();
        lemma_usable(rest);
        let usable = listing::usable_pairs(pairs);
        let map = text_map::pairs_map(usable);
        let before = text_map::pairs_map(listing::usable_pairs(rest));
        if is_usable(last) {
            assert(usable.drop_last() =~= listing::usable_pairs(rest));
            assert(map == before.insert(last.0, last.1));
            assert(is_last_usable(pairs, pairs.len() - 1));
            assert(is_usable(pairs[pairs.len() - 1]));
        } else {
            assert(map == before);
        }
        assert forall|i: int| #[trigger] is_last_usable(pairs, i) implies map.contains_key(
            pairs[i].0,
        ) && map[pairs[i].0] == pairs[i].1 by {
            if i < rest.len() {
                assert(is_last_usable(rest, i)) by {
                    assert forall|j: int|
                        i < j < rest.len() && is_usable(#[trigger] rest[j]) implies rest[j].0
                        != rest[i].0 by {
                        assert(pairs[j] == rest[j]);
                    }
                }
                if is_usable(last) {
                    assert(pairs[pairs.len() - 1].0 != pairs[i].0);
                }
            }
        }
        assert forall|key: Seq<char>| #[trigger] map.contains_key(key) implies exists|i: int|
            #[trigger] is_last_usable(pairs, i) && pairs[i].0 == key by {
            if is_usable(last) && last.0 == key {
                assert(is_last_usable(pairs, pairs.len() - 1));
            } else {
                assert(before.contains_key(key));
                let i = choose|i: int| #[trigger] is_last_usable(rest, i) && rest[i].0 == key;
                assert(is_last_usable(pairs, i)) by {
                    assert forall|j: int|
                        i < j < pairs.len() && is_usable(#[trigger] pairs[j]) implies pairs[j].0
                        != pairs[i].0 by {
                        if j < rest.len() {
                            assert(rest[j] == pairs[j]);
                        }
                    }
                }
                assert(pairs[i].0 == key);
            }
        }
        if listing::usable_pairs(pairs).len() == 0 {
            assert forall|i: int| 0 <= i < pairs.len() implies !is_usable(#[trigger] pairs[i]) by {
                if i < rest.len() {
                    assert(rest[i] == pairs[i]);
                }
            }
        } else if is_usable(last) {
            assert(is_usable(pairs[pairs.len() - 1]));
        } else {
            let i = choose|i: int| 0 <= i < rest.len() && is_usable(#[trigger] rest[i]);
            assert(is_usable(pairs[i]));
        }
    }
}

/// A filter on metadata asks for exactly the pairs of which neither part is empty,
/// the last one for each key. There is no filter exactly where there is no such
/// pair.
pub proof fn law_filter_asks_for_the_usable_pairs(
    pairs: Vec<(String, String)>,
    filter: Option<TextMap>,
    i: int,
    key: Seq<char>,
)
    requires
        call_ensures(listing::metadata_filter, (pairs,), filter),
    ensures
        ({
            let read = text_map::pairs_view(pairs@);
            &&& filter is None <==> forall|j: int|
                0 <= j < read.len() ==> !is_usable(#[trigger] read[j])
            &&& filter matches Some(map) ==> {
                &&& is_last_usable(read, i) ==> map@.contains_key(read[i].0) && map@[read[i].0]
                    == read[i].1
                &&& map@.contains_key(key) ==> exists|j: int| #[trigger]
                    is_last_usable(read, j) && read[j].0 == key
            }
        }),
{
    lemma_usable(text_map::pairs_view(pairs@));
}

/// The filter of a query is made of the pairs that its text is read as.
pub proof fn law_filter_is_read_from_the_query(
    raw: Option<String>,
    filter: Option<TextMap>,
    pairs: Vec<(String, String)>,
    made: Option<TextMap>,
)
    requires
        call_ensures(listing::parse_metadata_filter, (&raw,), filter),
        raw matches Some(text) ==> text_map::pairs_view(pairs@) == listing::form_pairs(text@),
        call_ensures(listing::metadata_filter, (pairs,), made),
    ensures
        raw is None ==> filter is None,
        raw is Some ==> (filter is Some <==> made is Some),
        raw is Some && filter is Some ==> (filter->0)@ == (made->0)@,
{
}

/// Lists that the orchestrator could not make are a server error, of which the
/// reply tells what the error says.
pub proof fn law_failed_lists_are_server_errors(
    draft: ListDraft,
    error: OrchestratorError,
    told: ApiError,
    plain: Reply<Vec<ListedSandbox>>,
    paged: Result<(Vec<SandboxMetadata>, ListCursor, ListTotal), Reply<ListPage>>,
)
    requires
        call_ensures(api::error_model, (error,), told),
        call_ensures(listing::sandboxes_get, (Err(error),), plain),
        call_ensures(listing::v2_sandboxes_listed, (draft, Err(error)), paged),
    ensures
        tells(plain, Status::ServerError, told),
        paged matches Err(reply) && tells(reply, Status::ServerError, told),
{
}

/// What is told of an error of the orchestrator: a sandbox that is not there and
/// a node that shuts down by fixed texts, a conflict and a wrong state by the
/// error's own message, a failed operation by what failed, and any other as an
/// internal error.
pub proof fn law_errors_are_told(error: OrchestratorError, told: ApiError)
    requires
        call_ensures(api::error_model, (error,), told),
    ensures
        match error.kind {
            OrchestratorErrorKind::ShuttingDown => told.code == 503 && told.message@
                == "orchestrator is shutting down"@,
            OrchestratorErrorKind::SandboxNotFound { id } => told.code == 404 && told.message@
                == "sandbox "@ + id.text() + " not found"@,
            OrchestratorErrorKind::InvalidSandboxState { .. } => told.code == 400 && told.message@
                == error.message@,
            OrchestratorErrorKind::SandboxOperationConflict => told.code == 409 && told.message@
                == error.message@,
            OrchestratorErrorKind::SandboxOperationFailed {
                sandbox_id,
                operation,
                source_message,
                ..
            } => told.code == 500 && told.message@ == "sandbox "@ + sandbox_id.text()
                + " operation "@ + operation@ + " failed: "@ + source_message@,
            _ => told.code == error.internal.code && told.message@ == error.internal.message@,
        },
{
}

/// Whether a reply refuses a request for an error that its own rules are not
/// about: a sandbox that is not there, or a server error.
pub open spec fn refused_plainly<T>(
    reply: Reply<T>,
    error: OrchestratorError,
    told: ApiError,
) -> bool {
    match error.kind {
        OrchestratorErrorKind::SandboxNotFound { id } => says_not_found(reply, id.text()),
        _ => tells(reply, Status::ServerError, told),
    }
}

/// Deleting a sandbox, refreshing it and setting its timeout are answered alike:
/// done exactly if the orchestrator did it, and refused plainly otherwise.
pub proof fn law_plain_requests_are_answered_alike(
    result: Result<(), OrchestratorError>,
    told: ApiError,
    deleted: Reply<()>,
    refreshed: Reply<()>,
    timed: Reply<()>,
)
    requires
        result matches Err(error) ==> call_ensures(api::error_model, (error,), told),
        call_ensures(handlers::sandboxes_sandbox_id_delete, (result,), deleted),
        call_ensures(handlers::sandboxes_sandbox_id_refreshes_post, (result,), refreshed),
        call_ensures(handlers::sandboxes_sandbox_id_timeout_post, (result,), timed),
    ensures
        deleted is Done <==> result is Ok,
        refreshed is Done <==> result is Ok,
        timed is Done <==> result is Ok,
        result matches Err(error) ==> {
            &&& refused_plainly(deleted, error, told)
            &&& refused_plainly(refreshed, error, told)
            &&& refused_plainly(timed, error, told)
        },
{
}

/// Pausing a sandbox is done exactly if the orchestrator did it. A state that does
/// not allow it is a conflict.
pub proof fn law_pause_is_answered(
    result: Result<(), OrchestratorError>,
    told: ApiError,
    reply: Reply<()>,
)
    requires
        result matches Err(error) ==> call_ensures(api::error_model, (error,), told),
        call_ensures(handlers::sandboxes_sandbox_id_pause_post, (result,), reply),
    ensures
        reply is Done <==> result is Ok,
        result matches Err(error) ==> match error.kind {
            OrchestratorErrorKind::InvalidSandboxState { state } => refused(
                reply,
                Status::Conflict,
                409,
                "sandbox cannot be paused from "@ + state@ + " state"@,
            ),
            _ => refused_plainly(reply, error, told),
        },
{
}

/// Updating the network of a sandbox is done exactly if the orchestrator did it.
/// A state that does not allow it, and another operation, are conflicts.
pub proof fn law_network_update_is_answered(
    result: Result<(), OrchestratorError>,
    told: ApiError,
    reply: Reply<()>,
)
    requires
        result matches Err(error) ==> call_ensures(api::error_model, (error,), told),
        call_ensures(handlers::sandboxes_sandbox_id_network_put, (result,), reply),
    ensures
        reply is Done <==> result is Ok,
        result matches Err(error) ==> match error.kind {
            OrchestratorErrorKind::InvalidSandboxState { state } => refused(
                reply,
                Status::Conflict,
                409,
                "sandbox network cannot be updated from "@ + state@ + " state"@,
            ),
            OrchestratorErrorKind::SandboxOperationConflict => refused(
                reply,
                Status::Conflict,
                409,
                error.message@,
            ),
            _ => refused_plainly(reply, error, told),
        },
{
}

/// A request for a sandbox that the orchestrator does not know is told so by the
/// identity of the request, and a failed look-up is a server error.
pub proof fn law_unknown_sandboxes_are_not_found(
    sandbox_id: SandboxId,
    error: OrchestratorError,
    told: ApiError,
    timeout: u32,
    got: Reply<SandboxDetail>,
    got_failed: Reply<SandboxDetail>,
    connected: ConnectStep,
    connect_failed: ConnectStep,
)
    requires
        call_ensures(api::error_model, (error,), told),
        call_ensures(handlers::sandboxes_sandbox_id_get, (sandbox_id, Ok(None)), got),
        call_ensures(handlers::sandboxes_sandbox_id_get, (sandbox_id, Err(error)), got_failed),
        call_ensures(
            handlers::sandboxes_sandbox_id_connect_post,
            (sandbox_id, Ok(None), timeout),
            connected,
        ),
        call_ensures(
            handlers::sandboxes_sandbox_id_connect_post,
            (sandbox_id, Err(error), timeout),
            connect_failed,
        ),
    ensures
        says_not_found(got, sandbox_id.text()),
        tells(got_failed, Status::ServerError, told),
        connected matches ConnectStep::Answer(reply) && says_not_found(reply, sandbox_id.text()),
        connect_failed matches ConnectStep::Answer(reply) && tells(
            reply,
            Status::ServerError,
            told,
        ),
{
}

/// Connecting resumes a sandbox that is paused or being paused, for the time that
/// the request gives, and never any other. One that is being removed is not there.
/// Any other is kept alive for that time, which never gets shorter by it.
pub proof fn law_connecting_follows_the_state(
    sandbox_id: SandboxId,
    m: SandboxMetadata,
    timeout: u32,
    step: ConnectStep,
)
    requires
        call_ensures(
            handlers::sandboxes_sandbox_id_connect_post,
            (sandbox_id, Ok(Some(m)), timeout),
            step,
        ),
    ensures
        step is Resume <==> m.state is Pausing || m.state is Paused,
        step is Answer <==> m.state is Killing || m.state is CleanupPending,
        step is KeepAlive <==> m.state is Creating || m.state is Resuming || m.state is Running
            || m.state is Snapshotting || m.state is Forking,
        step matches ConnectStep::Resume(secs) ==> secs == timeout,
        step matches ConnectStep::Answer(reply) ==> says_not_found(reply, sandbox_id.text()),
        step matches ConnectStep::KeepAlive(kept, asked) ==> {
            &&& kept == m
            &&& asked.timeout matches Some(secs) && secs == timeout
            &&& !asked.may_shorten
        },
{
}

/// Connecting to a sandbox that is up shows it once it is kept alive. A timeout
/// that the orchestrator does not take is the client's fault.
pub proof fn law_keeping_alive_is_answered(
    m: SandboxMetadata,
    access: SandboxAccess,
    result: Result<(), OrchestratorError>,
    told: ApiError,
    reply: Reply<Sandbox>,
)
    requires
        result matches Err(error) ==> call_ensures(api::error_model, (error,), told),
        call_ensures(handlers::connect_kept_alive, (m, access, result), reply),
    ensures
        reply is Success <==> result is Ok,
        reply matches Reply::Success(sandbox) ==> sandbox.sandbox_id@ == m.id.text()
            && sandbox.template_id == m.snapshot_id && sandbox.envd_access_token
            == access.envd_access_token,
        result matches Err(error) ==> match error.kind {
            OrchestratorErrorKind::InvalidTimeout { timeout_debug, .. } => refused(
                reply,
                Status::BadRequest,
                400,
                "invalid timeout: "@ + timeout_debug@,
            ),
            _ => refused_plainly(reply, error, told),
        },
{
}

/// A sandbox that was resumed, by a connection or by a request to resume it, is
/// shown as created, with the identity that the orchestrator reports. A state that
/// does not allow it is the client's fault for a connection and a conflict for a
/// request to resume.
pub proof fn law_resuming_is_answered(
    result: Result<(SandboxMetadata, SandboxAccess), OrchestratorError>,
    told: ApiError,
    connected: Reply<Sandbox>,
    resumed: Reply<Sandbox>,
)
    requires
        result matches Err(error) ==> call_ensures(api::error_model, (error,), told),
        call_ensures(handlers::connect_resumed, (result,), connected),
        call_ensures(handlers::sandboxes_sandbox_id_resume_post, (result,), resumed),
    ensures
        connected is Created <==> result is Ok,
        resumed is Created <==> result is Ok,
        result matches Ok((m, access)) ==> {
            &&& connected matches Reply::Created(sandbox) && sandbox.sandbox_id@ == m.id.text()
                && sandbox.template_id == m.snapshot_id && sandbox.envd_access_token
                == access.envd_access_token
            &&& resumed matches Reply::Created(sandbox) && sandbox.sandbox_id@ == m.id.text()
                && sandbox.template_id == m.snapshot_id && sandbox.envd_access_token
                == access.envd_access_token
        },
        result matches Err(error) ==> match error.kind {
            OrchestratorErrorKind::InvalidSandboxState { state } => {
                let message = "sandbox cannot be resumed from "@ + state@ + " state"@;
                &&& refused(connected, Status::BadRequest, 400, message)
                &&& refused(resumed, Status::Conflict, 409, message)
            },
            OrchestratorErrorKind::SandboxOperationConflict => {
                &&& refused(connected, Status::Conflict, 409, error.message@)
                &&& refused(resumed, Status::Conflict, 409, error.message@)
            },
            OrchestratorErrorKind::InvalidTimeout { timeout, .. } => {
                &&& tells(connected, Status::ServerError, told)
                &&& refused(resumed, Status::BadRequest, 400, "invalid timeout: "@ + timeout@)
            },
            _ => {
                &&& refused_plainly(connected, error, told)
                &&& refused_plainly(resumed, error, told)
            },
        },
{
}

/// A refresh never shortens the time that a sandbox has left, and a new timeout
/// may. Both ask for the seconds that the request gives, or for none.
pub proof fn law_only_a_new_timeout_may_shorten(
    asked: Option<u32>,
    refreshed: KeepAlive,
    empty: KeepAlive,
    timed: KeepAlive,
)
    requires
        call_ensures(handlers::refresh_timeout, (Some(asked),), refreshed),
        call_ensures(handlers::refresh_timeout, (None,), empty),
        call_ensures(handlers::set_timeout, (asked,), timed),
    ensures
        !refreshed.may_shorten && !empty.may_shorten && timed.may_shorten,
        empty.timeout is None,
        refreshed.timeout == timed.timeout,
        timed.timeout is Some <==> asked is Some,
        asked matches Some(secs) ==> timed.timeout->0 == secs,
{
}

/// A resumed sandbox lives as long as the request says, or as long as sandboxes do
/// by default.
pub proof fn law_resume_takes_the_asked_time(timeout: Option<u32>, default_timeout: u64, secs: u64)
    requires
        call_ensures(handlers::resume_timeout, (timeout, default_timeout), secs),
    ensures
        timeout matches Some(asked) ==> secs == asked,
        timeout is None ==> secs == default_timeout,
{
}

/// The parameters of the custom extension are shown as they are kept, and as the
/// patch left them; absent ones are shown as none.
pub proof fn law_extension_params_are_shown(
    path_id: &str,
    m: SandboxMetadata,
    got: Reply<Vec<(String, Json)>>,
    patched: Option<Vec<(String, Json)>>,
    answered: Reply<Vec<(String, Json)>>,
)
    requires
        call_ensures(
            handlers::sandboxes_sandbox_id_custom_extension_params_get,
            (path_id, Ok(Some(m))),
            got,
        ),
        call_ensures(
            handlers::sandboxes_sandbox_id_custom_extension_params_patch,
            (Ok(patched),),
            answered,
        ),
    ensures
        got matches Reply::Success(params) && (m.custom_extension_params matches Some(kept)
            ==> params == kept) && (m.custom_extension_params is None ==> params@.len() == 0),
        answered matches Reply::Success(params) && (patched matches Some(kept) ==> params == kept)
            && (patched is None ==> params@.len() == 0),
{
}

/// A request for the parameters of a sandbox that is not there is told so by the
/// name in its path; a patch that the extension refused is the client's fault, and
/// one that meets a wrong state or another operation is a conflict.
pub proof fn law_extension_requests_are_refused(
    path_id: &str,
    error: OrchestratorError,
    told: ApiError,
    missing: Reply<Vec<(String, Json)>>,
    failed: Reply<Vec<(String, Json)>>,
    patched: Reply<Vec<(String, Json)>>,
)
    requires
        call_ensures(api::error_model, (error,), told),
        call_ensures(
            handlers::sandboxes_sandbox_id_custom_extension_params_get,
            (path_id, Ok(None)),
            missing,
        ),
        call_ensures(
            handlers::sandboxes_sandbox_id_custom_extension_params_get,
            (path_id, Err(error)),
            failed,
        ),
        call_ensures(
            handlers::sandboxes_sandbox_id_custom_extension_params_patch,
            (Err(error),),
            patched,
        ),
    ensures
        says_not_found(missing, path_id@),
        tells(failed, Status::ServerError, told),
        match error.kind {
            OrchestratorErrorKind::SandboxOperationFailed { .. } => refused(
                patched,
                Status::BadRequest,
                400,
                error.message@,
            ),
            OrchestratorErrorKind::InvalidSandboxState { state } => refused(
                patched,
                Status::Conflict,
                409,
                "sandbox custom extension params cannot be patched from "@ + state@ + " state"@,
            ),
            OrchestratorErrorKind::SandboxOperationConflict => refused(
                patched,
                Status::Conflict,
                409,
                error.message@,
            ),
            _ => refused_plainly(patched, error, told),
        },
{
}

/// A path names the sandbox whose text it is, and a path that names none is told
/// that it is not there.
pub proof fn law_paths_name_sandboxes<T>(
    path_id: &str,
    result: Result<SandboxId, Reply<T>>,
    id: SandboxId,
    text: String,
)
    requires
        call_ensures(handlers::sandbox_of_path::<T>, (path_id,), result),
        call_ensures(SandboxId::to_text, (id,), text),
    ensures
        path_id@ == text@ ==> result == Ok::<SandboxId, Reply<T>>(id),
        result matches Err(reply) ==> says_not_found(reply, path_id@),
        result is Ok <==> crate::ident::uuid_parse(path_id@) is Some,
        result matches Ok(named) ==> crate::ident::uuid_parse(path_id@) == Some(named.bits),
{
    if path_id@ == text@ {
        assert(path_id@ == id.text());
    }
}

/// A path that was read as a UUID names the sandbox of that UUID.
pub proof fn law_read_paths_name_their_uuid<T>(
    path_id: &str,
    read: Option<u128>,
    result: Result<SandboxId, Reply<T>>,
)
    requires
        call_ensures(handlers::accepted_sandbox::<T>, (path_id, read), result),
    ensures
        read matches Some(bits) ==> (result matches Ok(id) && id.bits == bits),
        read is None ==> (result matches Err(reply) && says_not_found(reply, path_id@)),
{
}

/// Errors are refused by their codes: from 500 on as server errors, and below as
/// the client's fault; the owner of an allocation by 400 and 409 as such, and by
/// any other code as a server error. The body of the error is never changed.
pub proof fn law_codes_decide_the_status<T>(
    error: ApiError,
    by_class: Reply<T>,
    by_owner: Reply<T>,
)
    requires
        call_ensures(api::client_or_server_response::<T>, (error,), by_class),
        call_ensures(api::refuse_owner::<T>, (error,), by_owner),
    ensures
        error.code >= 500 ==> tells(by_class, Status::ServerError, error),
        error.code < 500 ==> tells(by_class, Status::BadRequest, error),
        error.code == 400 ==> tells(by_owner, Status::BadRequest, error),
        error.code == 409 ==> tells(by_owner, Status::Conflict, error),
        error.code != 400 && error.code != 409 ==> tells(by_owner, Status::ServerError, error),
{
}

/// A refusal says what it is made of: the status, the code and the message, or the
/// state of the sandbox between two texts.
pub proof fn law_refusals_say_what_they_are_made_of<T>(
    status: Status,
    code: i32,
    message: &str,
    state: &str,
    plain: Reply<T>,
    stateful: Reply<T>,
    missing: Reply<T>,
    error: ApiError,
    made: ApiError,
)
    requires
        call_ensures(api::refuse::<T>, (status, code, message), plain),
        call_ensures(api::refuse_state::<T>, (status, code, message, state), stateful),
        call_ensures(api::refuse_not_found::<T>, (message,), missing),
        call_ensures(api::sandbox_not_found, (message,), error),
        call_ensures(ApiError::new, (code, message), made),
    ensures
        refused(plain, status, code as int, message@),
        refused(stateful, status, code as int, message@ + state@ + " state"@),
        says_not_found(missing, message@),
        tells(missing, Status::NotFound, error),
        made.code == code && made.message@ == message@,
{
}

/// The running sandboxes are counted as far as 32 bits go, or not at all.
pub proof fn law_running_sandboxes_are_counted(
    list: Vec<SandboxMetadata>,
    counted: Option<i32>,
    left_out: Option<i32>,
)
    requires
        call_ensures(listing::total_running, (&list, true), counted),
        call_ensures(listing::total_running, (&list, false), left_out),
    ensures
        left_out is None,
        running_of(list@).len() <= i32::MAX ==> (counted matches Some(count) && count
            == running_of(list@).len()),
        running_of(list@).len() > i32::MAX ==> counted == Some(i32::MAX),
{
    lemma_running_count(list@);
}

/// What a request says of internet access is what a reply shows of the policy that
/// is made of it.
pub proof fn law_base_policies_are_read_back(
    asked: Option<bool>,
    policy: BaseSandboxNetworkPolicy,
    shown: Nullable<bool>,
)
    requires
        call_ensures(network::base_policy_from_allow_internet_access, (asked,), policy),
        call_ensures(network::allow_internet_access_from_base_policy, (policy,), shown),
    ensures
        asked matches Some(allowed) ==> shown == Nullable::Present(allowed),
        asked is None ==> shown == Nullable::<bool>::Null,
        policy is Allow <==> asked == Some(true),
        policy is Deny <==> asked == Some(false),
{
}

/// A policy without rules restricts nothing, and one that nobody asked for allows
/// public traffic.
pub proof fn law_policies_know_their_rules(
    policy: SandboxNetworkPolicy,
    by_name: bool,
    any: bool,
    default: SandboxNetworkPolicy,
    unrestricted: bool,
)
    requires
        call_ensures(SandboxNetworkPolicy::has_domain_allow_rules, (&policy,), by_name),
        call_ensures(SandboxNetworkPolicy::has_explicit_egress_rules, (&policy,), any),
        call_ensures(<SandboxNetworkPolicy as Default>::default, (), default),
        call_ensures(SandboxNetworkPolicy::has_explicit_egress_rules, (&default,), unrestricted),
    ensures
        by_name <==> policy.egress.allowed_domains@.len() > 0,
        any <==> policy.egress.allowed_domains@.len() + policy.egress.allowed_cidrs@.len()
            + policy.egress.denied_cidrs@.len() > 0,
        !unrestricted && default.allow_public_traffic && default.base_policy is Default,
{
}

/// The two checks of a policy together accept exactly the rules that are in order.
pub proof fn law_policy_checks_accept_rules_in_order(
    policy: SandboxNetworkPolicy,
    versions: Result<(), String>,
    domains: Result<(), String>,
)
    requires
        call_ensures(network::validate_ipv4_cidrs, (&policy,), versions),
        call_ensures(network::validate_domain_allowlist, (&policy,), domains),
    ensures
        versions is Ok && domains is Ok <==> rules_in_order(policy.egress),
        versions is Ok <==> (forall|i: int|
            0 <= i < policy.egress.allowed_cidrs@.len()
                ==> #[trigger] policy.egress.allowed_cidrs@[i] is V4) && (forall|i: int|
            0 <= i < policy.egress.denied_cidrs@.len()
                ==> #[trigger] policy.egress.denied_cidrs@[i] is V4),
        versions matches Err(message) ==> message@
            == "IPv6 CIDRs are not supported by the sandbox network API"@,
        domains matches Err(message) ==> message@
            == "allowOut contains domains but denyOut is missing 0.0.0.0/0 (ALL_TRAFFIC)"@,
{
    let rules = policy.egress;
    if network::denies_all_traffic(rules) {
        let i = choose|i: int|
            0 <= i < rules.denied_cidrs@.len() && network::is_all_traffic(
                #[trigger] rules.denied_cidrs@[i],
            );
        assert(rules.denied_cidrs@[i] matches Cidr::V4(all) && all.addr() == 0 && all.prefix() == 0);
    }
    if exists|i: int|
        0 <= i < rules.denied_cidrs@.len() && (#[trigger] rules.denied_cidrs@[i] matches Cidr::V4(
            all,
        ) && all.addr() == 0 && all.prefix() == 0) {
        let i = choose|i: int|
            0 <= i < rules.denied_cidrs@.len() && (#[trigger] rules.denied_cidrs@[i] matches Cidr::V4(
                all,
            ) && all.addr() == 0 && all.prefix() == 0);
        assert(network::is_all_traffic(rules.denied_cidrs@[i]));
    }
    assert forall|i: int| 0 <= i < rules.allowed_cidrs@.len() implies (
    #[trigger] rules.allowed_cidrs@[i] is V4) == !(rules.allowed_cidrs@[i] is V6) by {}
    assert forall|i: int| 0 <= i < rules.denied_cidrs@.len() implies (
    #[trigger] rules.denied_cidrs@[i] is V4) == !(rules.denied_cidrs@[i] is V6) by {}
}

} // verus!
