//! Requests that change the collection or ask for a fresh view of it:
//! unsubscribe and refresh. Both end in dropping what is cached for the
//! identity, unsubscribe only if something was deleted.

use vstd::prelude::*;
use crate::cache::without_identity;
use crate::state::AppState;
use crate::subscriptions::identity_of;
use crate::text::opt_str_view;
use crate::upstream::{is_success, status_is_success, QueryError};

verus! {

/// The body of an unsubscribe request: the ids to delete.
#[derive(Debug)]
pub struct UnsubscribeRequest {
    pub ids: Vec<String>,
}

/// The body of the answer to an unsubscribe request: the ids that the
/// upstream deleted.
#[derive(Debug, PartialEq, Eq)]
pub struct UnsubscribeResponse {
    pub deleted: Vec<String>,
}

/// The outcome of one delete call of the upstream API.
#[derive(Clone, Copy, Debug, PartialEq, Eq)]
pub enum DeleteReply {
    /// No answer: connection failure or timeout.
    Unreachable,
    /// An answer with its status code.
    Answer { status: u16 },
}

/// The upstream deleted the id: it answered, with a status of success.
pub open spec fn delete_succeeded(reply: DeleteReply) -> bool {
    match reply {
        DeleteReply::Unreachable => false,
        DeleteReply::Answer { status } => is_success(status),
    }
}

/// The delete call for the id at position `i` was made and succeeded.
pub open spec fn accepted_at(replies: Seq<DeleteReply>, i: int) -> bool {
    0 <= i < replies.len() && delete_succeeded(replies[i])
}

/// The ids whose delete call succeeded, in request order. `replies[i]` is
/// the outcome for `ids[i]`; an id without a reply counts as not deleted.
pub open spec fn deleted_ids(ids: Seq<String>, replies: Seq<DeleteReply>) -> Seq<String>
    decreases ids.len(),
{
    if ids.len() == 0 {
        Seq::empty()
    } else if accepted_at(replies, ids.len() - 1) {
        deleted_ids(ids.drop_last(), replies).push(ids.last())
    } else {
        deleted_ids(ids.drop_last(), replies)
    }
}

/// `post` is `pre` with everything forgotten that was known of `identity`:
/// its cached lists, whatever their filter and sort direction, and its
/// cursor chain.
pub open spec fn invalidated(pre: AppState, identity: Seq<char>, post: AppState) -> bool {
    &&& post.subs_cache@ == without_identity(pre.subs_cache@, identity)
    &&& post.page_tokens@ == pre.page_tokens@.remove(identity)
    &&& post.access_token == pre.access_token
}

/// `r` and `post` are the outcome of an unsubscribe request in state `pre`.
///
/// Without credential it fails and nothing changes. Otherwise it succeeds
/// with the ids that were deleted, whatever became of the others, and the
/// identity is invalidated exactly if at least one id was deleted.
pub open spec fn unsubscribed(
    pre: AppState,
    token: Option<Seq<char>>,
    ids: Seq<String>,
    replies: Seq<DeleteReply>,
    r: Result<UnsubscribeResponse, QueryError>,
    post: AppState,
) -> bool {
    match token {
        None => r == Err::<UnsubscribeResponse, QueryError>(QueryError::AuthMissing) && post
            == pre,
        Some(identity) => {
            &&& r matches Ok(response) && response.deleted@ == deleted_ids(ids, replies)
            &&& if deleted_ids(ids, replies).len() > 0 {
                invalidated(pre, identity, post)
            } else {
                post == pre
            }
        },
    }
}

/// `r` and `post` are the outcome of a refresh request in state `pre`:
/// without credential it fails and nothing changes; otherwise it succeeds
/// and the identity is invalidated, whether or not anything was cached.
pub open spec fn refreshed(
    pre: AppState,
    token: Option<Seq<char>>,
    r: Result<(), QueryError>,
    post: AppState,
) -> bool {
    match token {
        None => r == Err::<(), QueryError>(QueryError::AuthMissing) && post == pre,
        Some(identity) => r == Ok::<(), QueryError>(()) && invalidated(pre, identity, post),
    }
}

/// The texts of the ids.
pub open spec fn texts(ids: Seq<String>) -> Seq<Seq<char>> {
    Seq::new(ids.len(), |i: int| ids[i]@)
}

/// `id` is an id of the request whose delete call was made and succeeded.
pub open spec fn was_accepted(ids: Seq<String>, replies: Seq<DeleteReply>, id: String) -> bool {
    exists|i: int| 0 <= i < ids.len() && #[trigger] accepted_at(replies, i) && ids[i] == id
}

/// Every id reported as deleted is an id of the request whose delete call
/// was made and succeeded.
pub proof fn law_deleted_were_accepted(ids: Seq<String>, replies: Seq<DeleteReply>)
    ensures
        deleted_ids(ids, replies).len() <= ids.len(),
        forall|d: int|
            0 <= d < deleted_ids(ids, replies).len() ==> was_accepted(
                ids,
                replies,
                #[trigger] deleted_ids(ids, replies)[d],
            ),
    decreases ids.len(),
{
    if ids.len() > 0 {
        let rest = ids.drop_last();
        let last = ids.len() - 1;
        law_deleted_were_accepted(rest, replies);
        let out = deleted_ids(ids, replies);
        let before = deleted_ids(rest, replies);
        assert forall|d: int| 0 <= d < out.len() implies was_accepted(
            ids,
            replies,
            #[trigger] out[d],
        ) by {
            if d < before.len() {
                assert(out[d] == before[d]);
                assert(was_accepted(rest, replies, before[d]));
                let i = choose|i: int|
                    0 <= i < rest.len() && #[trigger] accepted_at(replies, i) && rest[i]
                        == before[d];
                assert(accepted_at(replies, i) && ids[i] == out[d]);
            } else {
                assert(accepted_at(replies, last) && ids[last] == out[d]);
            }
        }
    }
}

/// Where the request names no id twice, an id whose delete call failed, or
/// was never made, is not reported as deleted.
pub proof fn law_rejected_not_deleted(ids: Seq<String>, replies: Seq<DeleteReply>)
    requires
        texts(ids).no_duplicates(),
    ensures
        forall|i: int|
            0 <= i < ids.len() && !accepted_at(replies, i) ==> !texts(
                deleted_ids(ids, replies),
            ).contains(#[trigger] ids[i]@),
{
    law_deleted_were_accepted(ids, replies);
    let out = deleted_ids(ids, replies);
    assert forall|i: int| 0 <= i < ids.len() && !accepted_at(replies, i) implies !texts(
        out,
    ).contains(#[trigger] ids[i]@) by {
        if texts(out).contains(ids[i]@) {
            let d = choose|d: int| 0 <= d < texts(out).len() && texts(out)[d] == ids[i]@;
            assert(was_accepted(ids, replies, out[d]));
            let j = choose|j: int|
                0 <= j < ids.len() && #[trigger] accepted_at(replies, j) && ids[j] == out[d];
            assert(texts(ids)[j] == texts(ids)[i]);
        }
    }
}

/// Decides [`delete_succeeded`].
pub fn delete_reply_succeeded(reply: &DeleteReply) -> (r: bool)
    ensures
        r == delete_succeeded(*reply),
{
    match reply {
        DeleteReply::Unreachable => false,
        DeleteReply::Answer { status } => status_is_success(*status),
    }
}

/// Picks the ids whose delete call succeeded.
pub fn collect_deleted(ids: Vec<String>, replies: &Vec<DeleteReply>) -> (r: Vec<String>)
    ensures
        r@ == deleted_ids(ids@, replies@),
{
    let ghost all = ids@;
    let n = ids.len();
    let mut deleted: Vec<String> = Vec::new();
    let mut i: usize = 0;
    proof {
        assert(all.take(0) =~= Seq::<String>::empty());
    }
    for id in it: ids
        invariant
            it.seq() == all,
            all.len() == n,
            i == it.index(),
            deleted@ == deleted_ids(all.take(i as int), replies@),
    {
        proof {
            assert(id == all[i as int]);
            assert(all.take(i + 1).drop_last() =~= all.take(i as int));
            assert(all.take(i + 1).last() == all[i as int]);
        }
        if i < replies.len() && delete_reply_succeeded(&replies[i]) {
            deleted.push(id);
        }
        i = i + 1;
    }
    proof {
        assert(all.take(all.len() as int) =~= all);
    }
    deleted
}

/// Completes an unsubscribe request once the delete calls were made, one
/// per id: `replies[i]` is the outcome for `request.ids[i]`. A failed delete
/// is no error of the request; its id is left out of the answer.
pub fn unsubscribe_handler(
    state: &mut AppState,
    token: Option<&str>,
    request: UnsubscribeRequest,
    replies: &Vec<DeleteReply>,
) -> (r: Result<UnsubscribeResponse, QueryError>)
    requires
        old(state).wf(),
    ensures
        final(state).wf(),
        unsubscribed(
            *old(state),
            opt_str_view(token),
            request.ids@,
            replies@,
            r,
            *final(state),
        ),
{
    let identity = match identity_of(token) {
        Ok(identity) => identity,
        Err(e) => {
            return Err(e);
        },
    };
    let deleted = collect_deleted(request.ids, replies);
    if deleted.len() > 0 {
        state.on_mutation_or_refresh(identity.as_str());
    }
    Ok(UnsubscribeResponse { deleted })
}

/// Serves a refresh request: drops what is known of the identity.
pub fn refresh_subs_cache_handler(state: &mut AppState, token: Option<&str>) -> (r: Result<
    (),
    QueryError,
>)
    requires
        old(state).wf(),
    ensures
        final(state).wf(),
        refreshed(*old(state), opt_str_view(token), r, *final(state)),
{
    let identity = match identity_of(token) {
        Ok(identity) => identity,
        Err(e) => {
            return Err(e);
        },
    };
    state.on_mutation_or_refresh(identity.as_str());
    Ok(())
}

} // verus!
