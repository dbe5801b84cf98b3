//! Lists of sandboxes: what a query asks for and what the reply shows.

use vstd::prelude::*;

use crate::api;
use crate::api::{error_model, refuse, ApiError, ErrorView, OrchestratorError, Reply, Status};
use crate::ident::SandboxId;
use crate::models;
use crate::models::{
    listed_sandbox, ListedSandbox, PublicState, SandboxMetadata, SandboxState, Timestamp,
};
use crate::text_map;
use crate::text_map::TextMap;

verus! {

/// The pairs that a text in the form of a URL query is read as.
pub uninterp spec fn form_pairs(text: Seq<char>) -> Seq<(Seq<char>, Seq<char>)>;

/// `url::form_urlencoded::parse` on the bytes of a text: the decoded pairs in
/// their order. They depend on the text alone.
#[verifier::external_body]
fn form_urlencoded_parse(text: &str) -> (pairs: Vec<(String, String)>)
    ensures
        text_map::pairs_view(pairs@) == form_pairs(text@),
{
    url::form_urlencoded::parse(text.as_bytes()).into_owned().collect()
}

/// The pairs of which neither part is empty.
pub open spec fn usable_pairs(pairs: Seq<(Seq<char>, Seq<char>)>) -> Seq<(Seq<char>, Seq<char>)>
    decreases pairs.len(),
{
    if pairs.len() == 0 {
        Seq::empty()
    } else {
        let last = pairs.last();
        if last.0.len() > 0 && last.1.len() > 0 {
            usable_pairs(pairs.drop_last()).push(last)
        } else {
            usable_pairs(pairs.drop_last())
        }
    }
}

/// Whether a filter asks for exactly the pairs of which neither part is empty,
/// the later of two with one key, and is none where there are no such pairs.
pub open spec fn filters_by(
    filter: Option<TextMap>,
    pairs: Seq<(Seq<char>, Seq<char>)>,
) -> bool {
    let usable = usable_pairs(pairs);
    if usable.len() == 0 {
        filter is None
    } else {
        filter matches Some(map) && map@ == text_map::pairs_map(usable) && map.list().len() > 0
    }
}

/// The filter that pairs make.
pub fn metadata_filter(pairs: Vec<(String, String)>) -> (filter: Option<TextMap>)
    ensures
        filters_by(filter, text_map::pairs_view(pairs@)),
{
    let mut kept: Vec<(String, String)> = Vec::new();
    let mut rest = pairs;
    let ghost all = text_map::pairs_view(pairs@);
    let ghost mut done: int = 0;
    assert(all.take(0) =~= Seq::<(Seq<char>, Seq<char>)>::empty());
    assert(text_map::pairs_view(kept@) =~= Seq::<(Seq<char>, Seq<char>)>::empty());
    while rest.len() > 0
        invariant
            0 <= done <= pairs@.len(),
            all == text_map::pairs_view(pairs@),
            rest@ == pairs@.skip(done),
            text_map::pairs_view(kept@) == usable_pairs(all.take(done)),
        decreases rest.len(),
    {
        let (key, value) = rest.remove(0);
        let ghost before = kept@;
        proof {
            assert(all[done] == (key@, value@));
            assert(all.take(done + 1).drop_last() =~= all.take(done));
        }
        if key.as_str().unicode_len() > 0 && value.as_str().unicode_len() > 0 {
            kept.push((key, value));
            assert(text_map::pairs_view(kept@) =~= text_map::pairs_view(before).push(
                (key@, value@),
            ));
        }
        proof {
            done = done + 1;
            assert(rest@ =~= pairs@.skip(done));
        }
    }
    assert(all.take(done) =~= all);
    if kept.len() == 0 {
        None
    } else {
        Some(TextMap::from_pairs(kept))
    }
}

/// The filter on user metadata that a query gives as a text.
pub fn parse_metadata_filter(raw: &Option<String>) -> (filter: Option<TextMap>)
    ensures
        match raw {
            None => filter is None,
            Some(text) => filters_by(filter, form_pairs(text@)),
        },
{
    match raw {
        None => None,
        Some(text) => metadata_filter(form_urlencoded_parse(text.as_str())),
    }
}

/// Which sandboxes the orchestrator is asked for.
#[derive(Debug)]
pub struct SandboxListFilter {
    pub states: Option<Vec<SandboxState>>,
    pub excluded_states: Option<Vec<SandboxState>>,
    pub user_metadata: Option<TextMap>,
    pub started_after: Option<Timestamp>,
    pub template: Option<String>,
}

/// What the list of running sandboxes asks the orchestrator for.
pub fn sandboxes_get_filter(metadata: &Option<String>) -> (filter: SandboxListFilter)
    ensures
        filter.states matches Some(states) && states@ == seq![SandboxState::Running],
        filter.excluded_states is None,
        match metadata {
            None => filter.user_metadata is None,
            Some(text) => filters_by(filter.user_metadata, form_pairs(text@)),
        },
        filter.started_after is None,
        filter.template is None,
{
    let mut states: Vec<SandboxState> = Vec::new();
    states.push(SandboxState::Running);
    SandboxListFilter {
        states: Some(states),
        excluded_states: None,
        user_metadata: parse_metadata_filter(metadata),
        started_after: None,
        template: None,
    }
}

/// Whether a list shows the sandboxes one by one.
pub open spec fn shows_all(listed: Seq<ListedSandbox>, list: Seq<SandboxMetadata>) -> bool {
    &&& listed.len() == list.len()
    &&& forall|i: int|
        0 <= i < list.len() ==> models::shows_listed(#[trigger] listed[i], list[i])
}

fn listed_all(list: Vec<SandboxMetadata>) -> (listed: Vec<ListedSandbox>)
    ensures
        shows_all(listed@, list@),
{
    let mut listed: Vec<ListedSandbox> = Vec::new();
    let mut rest = list;
    while rest.len() > 0
        invariant
            listed@.len() + rest@.len() == list@.len(),
            rest@ == list@.skip(listed@.len() as int),
            forall|i: int|
                0 <= i < listed@.len() ==> models::shows_listed(#[trigger] listed@[i], list@[i]),
        decreases rest.len(),
    {
        let ghost done = listed@.len() as int;
        let first = rest.remove(0);
        assert(first == list@[done]);
        listed.push(listed_sandbox(first));
        assert(rest@ =~= list@.skip(done + 1));
    }
    listed
}

/// The reply to a request for the list of running sandboxes.
pub fn sandboxes_get(list: Result<Vec<SandboxMetadata>, OrchestratorError>) -> (reply: Reply<
    Vec<ListedSandbox>,
>)
    ensures
        match list {
            Ok(list) => reply matches Reply::Success(listed) && shows_all(listed@, list@),
            Err(error) => reply.refusal() == Some(
                (Status::ServerError, api::error_model_view(error)),
            ),
        },
{
    match list {
        Ok(list) => Reply::Success(listed_all(list)),
        Err(error) => Reply::Refused(Status::ServerError, error_model(error)),
    }
}

/// A place in an ordered list of sandboxes.
#[derive(Debug, Clone, Copy, PartialEq, Eq, Structural)]
pub struct ListCursor {
    pub descending: bool,
    pub time: Timestamp,
    pub value: SandboxId,
}

/// A query for a page of sandboxes. Its token is given as it was read.
#[derive(Debug)]
pub struct ListQuery {
    pub state: Vec<PublicState>,
    pub ascending: bool,
    pub metadata: Option<String>,
    pub started_after: Option<Timestamp>,
    pub template: Option<String>,
    pub next_token: Option<Result<ListCursor, String>>,
}

/// A query for a page whose token is in order. The orchestrator is to list the
/// sandboxes next.
#[derive(Debug)]
pub struct ListDraft {
    include_running: bool,
    cursor: ListCursor,
}

impl ListDraft {
    /// Whether the query asks for running sandboxes.
    pub closed spec fn include_running(self) -> bool {
        self.include_running
    }

    /// Where the page starts.
    pub closed spec fn cursor(self) -> ListCursor {
        self.cursor
    }
}

/// The state that a query asks for by what replies show.
pub open spec fn queried_state(state: PublicState) -> SandboxState {
    match state {
        PublicState::Running => SandboxState::Running,
        PublicState::Paused => SandboxState::Paused,
        PublicState::CleanupPending => SandboxState::CleanupPending,
    }
}

/// The states that a query asks for.
pub open spec fn queried_states(states: Seq<PublicState>) -> Seq<SandboxState> {
    states.map_values(|state: PublicState| queried_state(state))
}

/// Where the list of a query starts that has no token.
pub open spec fn first_cursor(descending: bool, now: Timestamp) -> ListCursor {
    ListCursor {
        descending,
        time: if descending {
            now
        } else {
            Timestamp { secs: 0, nanos: 0 }
        },
        value: SandboxId { bits: u128::MAX },
    }
}

/// What is wrong with the token of a query, or nothing.
pub open spec fn token_fault(
    token: Option<Result<ListCursor, String>>,
    descending: bool,
) -> Option<ErrorView> {
    match token {
        None => None,
        Some(Ok(cursor)) => if cursor.descending == descending {
            None
        } else {
            Some(
                ErrorView {
                    code: 400,
                    message: "next token was issued for a different sort order"@,
                },
            )
        },
        Some(Err(error)) => Some(
            ErrorView { code: 400, message: "invalid next token: "@ + error@ },
        ),
    }
}

/// What a query for a page asks the orchestrator for, and where the page starts.
/// A token has to be readable and of the order that the query asks for; without
/// one a descending list starts now.
pub fn v2_sandboxes_get(query: ListQuery, now: Timestamp) -> (result: Result<
    (SandboxListFilter, ListDraft),
    Reply<ListPage>,
>)
    ensures
        match token_fault(query.next_token, !query.ascending) {
            Some(fault) => result matches Err(reply) && reply.refusal() == Some(
                (Status::BadRequest, fault),
            ),
            None => result matches Ok((filter, draft)) && {
                &&& draft.cursor() == (match query.next_token {
                    Some(Ok(cursor)) => cursor,
                    _ => first_cursor(!query.ascending, now),
                })
                &&& if query.state@.len() == 0 {
                    filter.states is None && draft.include_running()
                } else {
                    &&& filter.states matches Some(states) && states@ == queried_states(
                        query.state@,
                    )
                    &&& draft.include_running() == query.state@.contains(PublicState::Running)
                }
                &&& filter.states matches Some(states) ==> forall|i: int|
                    0 <= i < query.state@.len() ==> match #[trigger] query.state@[i] {
                        PublicState::Running => states@[i] is Running,
                        PublicState::Paused => states@[i] is Paused,
                        PublicState::CleanupPending => states@[i] is CleanupPending,
                    }
                &&& filter.excluded_states is None
                &&& match query.metadata {
                    None => filter.user_metadata is None,
                    Some(text) => filters_by(filter.user_metadata, form_pairs(text@)),
                }
                &&& filter.started_after == query.started_after
                &&& filter.template == query.template
            },
        },
{
    let descending = !query.ascending;
    let cursor = match query.next_token {
        Some(Ok(cursor)) => {
            if cursor.descending != descending {
                return Err(
                    refuse(
                        Status::BadRequest,
                        400,
                        "next token was issued for a different sort order",
                    ),
                );
            }
            cursor
        },
        Some(Err(error)) => {
            let mut message = "invalid next token: ".to_owned();
            message.append(error.as_str());
            return Err(Reply::Refused(Status::BadRequest, ApiError { code: 400, message }));
        },
        None => ListCursor {
            descending,
            time: if descending {
                now
            } else {
                Timestamp { secs: 0, nanos: 0 }
            },
            value: SandboxId::max(),
        },
    };
    let mut include_running = query.state.len() == 0;
    let mut states: Vec<SandboxState> = Vec::new();
    let mut i: usize = 0;
    while i < query.state.len()
        invariant
            i <= query.state.len(),
            states@ == queried_states(query.state@).take(i as int),
            include_running == (query.state@.len() == 0 || query.state@.take(i as int).contains(
                PublicState::Running,
            )),
        decreases query.state.len() - i,
    {
        let shown = query.state[i];
        let state = match shown {
            PublicState::Running => SandboxState::Running,
            PublicState::Paused => SandboxState::Paused,
            PublicState::CleanupPending => SandboxState::CleanupPending,
        };
        let ghost seen = query.state@.take(i as int);
        proof {
            assert(query.state@.take(i + 1) =~= seen.push(shown));
            if seen.contains(PublicState::Running) {
                let k = choose|k: int| 0 <= k < seen.len() && seen[k] == PublicState::Running;
                assert(seen.push(shown)[k] == PublicState::Running);
            }
            if seen.push(shown).contains(PublicState::Running) {
                let k = choose|k: int|
                    0 <= k < seen.push(shown).len() && seen.push(shown)[k] == PublicState::Running;
                if k < seen.len() {
                    assert(seen[k] == PublicState::Running);
                }
            }
            if shown == PublicState::Running {
                assert(seen.push(shown)[seen.len() as int] == PublicState::Running);
            }
        }
        if let PublicState::Running = shown {
            include_running = true;
        }
        states.push(state);
        assert(states@ =~= queried_states(query.state@).take(i + 1));
        i = i + 1;
    }
    assert(queried_states(query.state@).take(i as int) =~= queried_states(query.state@));
    assert(query.state@.take(i as int) =~= query.state@);
    let filter = SandboxListFilter {
        states: if query.state.len() == 0 {
            None
        } else {
            Some(states)
        },
        excluded_states: None,
        user_metadata: parse_metadata_filter(&query.metadata),
        started_after: query.started_after,
        template: query.template,
    };
    Ok((filter, ListDraft { include_running, cursor }))
}

/// How many of the sandboxes are running.
pub open spec fn running_count(list: Seq<SandboxMetadata>) -> nat
    decreases list.len(),
{
    if list.len() == 0 {
        0
    } else {
        running_count(list.drop_last()) + (if list.last().state == SandboxState::Running {
            1nat
        } else {
            0nat
        })
    }
}

/// The total of running sandboxes that a reply gives.
pub open spec fn shown_total(list: Seq<SandboxMetadata>, include_running: bool) -> Option<i32> {
    if include_running {
        Some(
            if running_count(list) <= i32::MAX {
                running_count(list) as i32
            } else {
                i32::MAX
            },
        )
    } else {
        None
    }
}

/// The total of running sandboxes that a reply gives, as far as it can be
/// counted in 32 bits; none where the query leaves running sandboxes out.
pub fn total_running(list: &Vec<SandboxMetadata>, include_running: bool) -> (total: Option<i32>)
    ensures
        total == shown_total(list@, include_running),
{
    if !include_running {
        return None;
    }
    let mut count: usize = 0;
    let mut i: usize = 0;
    assert(list@.take(0) =~= Seq::<SandboxMetadata>::empty());
    while i < list.len()
        invariant
            i <= list.len(),
            count <= i,
            count == running_count(list@.take(i as int)),
        decreases list.len() - i,
    {
        assert(list@.take(i + 1).drop_last() =~= list@.take(i as int));
        assert(list@.take(i + 1).last() == list@[i as int]);
        if list[i].state == SandboxState::Running {
            count = count + 1;
        }
        i = i + 1;
    }
    assert(list@.take(i as int) =~= list@);
    if count <= 0x7fff_ffff {
        Some(count as i32)
    } else {
        Some(i32::MAX)
    }
}

/// A page of sandboxes.
#[derive(Debug)]
pub struct ListPage {
    pub body: Vec<ListedSandbox>,
    pub x_next_token: Option<String>,
    pub x_total_running: Option<i32>,
}

/// The total of running sandboxes in a whole list, kept for the reply while the
/// list is cut into pages.
#[derive(Debug)]
pub struct ListTotal {
    running: Option<i32>,
}

impl ListTotal {
    /// The total that the reply gives.
    pub closed spec fn running(self) -> Option<i32> {
        self.running
    }
}

/// Goes on once the orchestrator has listed the sandboxes that a query for a page
/// asks for: the running ones are counted over the whole list, which is to be cut
/// at the cursor next.
pub fn v2_sandboxes_listed(
    draft: ListDraft,
    list: Result<Vec<SandboxMetadata>, OrchestratorError>,
) -> (result: Result<(Vec<SandboxMetadata>, ListCursor, ListTotal), Reply<ListPage>>)
    ensures
        match list {
            Ok(list) => result matches Ok((whole, cursor, total)) && {
                &&& whole == list
                &&& cursor == draft.cursor()
                &&& total.running() == shown_total(list@, draft.include_running())
            },
            Err(error) => result matches Err(reply) && reply.refusal() == Some(
                (Status::ServerError, api::error_model_view(error)),
            ),
        },
{
    match list {
        Ok(list) => {
            let running = total_running(&list, draft.include_running);
            Ok((list, draft.cursor, ListTotal { running }))
        },
        Err(error) => Err(Reply::Refused(Status::ServerError, error_model(error))),
    }
}

/// The reply to a query for a page: the sandboxes that were cut from the list, the
/// token of the next page, and the total of the whole list.
pub fn v2_sandboxes_page(
    total: ListTotal,
    page: Vec<SandboxMetadata>,
    next_token: Option<String>,
) -> (reply: Reply<ListPage>)
    ensures
        reply matches Reply::Success(shown) && {
            &&& shows_all(shown.body@, page@)
            &&& shown.x_next_token == next_token
            &&& shown.x_total_running == total.running()
        },
{
    Reply::Success(
        ListPage {
            body: listed_all(page),
            x_next_token: next_token,
            x_total_running: total.running,
        },
    )
}

} // verus!
