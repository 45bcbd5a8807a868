//! What becomes of saved sessions.
use crate::ids::parses_as_uuid;
use crate::session::{
    before, comes_from, filed, first_request, law_listings_are_ordered_and_filtered, lemma_filed,
    limited, listing, newest_first, title_from, ChatModel, SessionModel, SummaryModel,
};
use crate::text::{decimal, trim};
use crate::types::{ContentBlockModel, MessageModel, Role};
use crate::words::shortened;
use vstd::prelude::*;

verus! {

/// With a limit the listing is the front of the whole one, as long as the limit allows; no session
/// that is left out is newer than one that is listed.
pub proof fn law_limits_keep_the_newest(
    sessions: Seq<SessionModel>,
    absolute: Seq<bool>,
    workspace: Option<Seq<char>>,
    n: usize,
)
    requires
        absolute.len() >= sessions.len(),
    ensures
        ({
            let all = limited(listing(sessions, absolute, workspace), None);
            let some = limited(listing(sessions, absolute, workspace), Some(n));
            &&& all == listing(sessions, absolute, workspace)
            &&& some.len() <= n
            &&& some.len() <= all.len()
            &&& some.len() == n || some.len() == all.len()
            &&& forall|i: int| 0 <= i < some.len() ==> #[trigger] some[i] == all[i]
            &&& forall|i: int, j: int|
                0 <= i < some.len() <= j < all.len() ==> !before(
                    (#[trigger] some[i]).updated_at,
                    (#[trigger] all[j]).updated_at,
                )
        }),
{
    law_listings_are_ordered_and_filtered(sessions, absolute, workspace);
    let all = listing(sessions, absolute, workspace);
    let some = limited(all, Some(n));
    assert forall|i: int, j: int| 0 <= i < some.len() <= j < all.len() implies !before(
        (#[trigger] some[i]).updated_at,
        (#[trigger] all[j]).updated_at,
    ) by {
        assert(some[i] == all[i]);
    }
}

/// Whether somebody said something in a session: a message of the user in the transcript, or one
/// of the conversation, that is not blank.
pub open spec fn was_used(session: SessionModel) -> bool {
    ||| exists|i: int|
        0 <= i < session.ui_messages.len() && (#[trigger] session.ui_messages[i]).role == "user"@
            && trim(session.ui_messages[i].content).len() > 0
    ||| exists|i: int, j: int|
        0 <= i < session.core_messages.len() && 0 <= j < session.core_messages[i].content.len()
            && session.core_messages[i].role is User && (
        #[trigger] session.core_messages[i].content[j]) is Text && trim(
            session.core_messages[i].content[j]->Text_text,
        ).len() > 0
}

proof fn lemma_was_used(session: SessionModel)
    ensures
        session.has_request() == was_used(session),
{
    if session.has_request() {
        if exists|i: int|
            0 <= i < session.core_messages.len() && crate::session::is_core_request(
                #[trigger] session.core_messages[i],
            ) {
            let i = choose|i: int|
                0 <= i < session.core_messages.len() && crate::session::is_core_request(
                    #[trigger] session.core_messages[i],
                );
            let content = session.core_messages[i].content;
            let j = choose|j: int|
                0 <= j < content.len() && crate::session::says_something(#[trigger] content[j]);
            assert(session.core_messages[i].content[j] is Text);
        }
    }
    if was_used(session) {
        if exists|i: int|
            0 <= i < session.ui_messages.len() && (#[trigger] session.ui_messages[i]).role
                == "user"@ && trim(session.ui_messages[i].content).len() > 0 {
        } else {
            let (i, j) = choose|i: int, j: int|
                0 <= i < session.core_messages.len() && 0 <= j
                    < session.core_messages[i].content.len() && session.core_messages[i].role
                    is User && (#[trigger] session.core_messages[i].content[j]) is Text && trim(
                    session.core_messages[i].content[j]->Text_text,
                ).len() > 0;
            assert(crate::session::says_something(session.core_messages[i].content[j]));
            assert(crate::session::is_core_request(session.core_messages[i]));
        }
    }
}

/// Whether a summary tells of a session.
pub open spec fn tells_of(summary: SummaryModel, session: SessionModel) -> bool {
    &&& summary.id == session.id
    &&& summary.title == session.title
    &&& summary.workspace_root == session.workspace_root
    &&& summary.updated_at == session.updated_at
    &&& summary.provider == session.provider
    &&& summary.model == session.model
}

/// Whether a session is to be listed: it is sound, was used, and is of the workspace.
pub open spec fn belongs(
    session: SessionModel,
    plan_is_absolute: bool,
    workspace: Option<Seq<char>>,
) -> bool {
    &&& session.schema_version == 1
    &&& parses_as_uuid(session.id)
    &&& session.pending_plan is Some ==> plan_is_absolute && trim(session.pending_plan->0).len() > 0
    &&& was_used(session)
    &&& workspace is Some ==> session.workspace_root == workspace->0
}

/// How many of the sessions are to be listed.
pub open spec fn how_many_belong(
    sessions: Seq<SessionModel>,
    absolute: Seq<bool>,
    workspace: Option<Seq<char>>,
) -> nat
    decreases sessions.len(),
{
    if sessions.len() == 0 {
        0
    } else {
        how_many_belong(sessions.drop_last(), absolute, workspace) + if belongs(
            sessions.last(),
            absolute[sessions.len() - 1],
            workspace,
        ) {
            1nat
        } else {
            0nat
        }
    }
}

/// Every session that belongs is listed, and nothing else is: there are as many summaries as such
/// sessions, each tells of one of them, and each of them is told of.
pub proof fn law_sessions_that_belong_are_listed(
    sessions: Seq<SessionModel>,
    absolute: Seq<bool>,
    workspace: Option<Seq<char>>,
)
    requires
        absolute.len() >= sessions.len(),
    ensures
        listing(sessions, absolute, workspace).len() == how_many_belong(
            sessions,
            absolute,
            workspace,
        ),
        forall|k: int|
            0 <= k < sessions.len() && belongs(#[trigger] sessions[k], absolute[k], workspace)
                ==> exists|i: int|
                0 <= i < listing(sessions, absolute, workspace).len() && tells_of(
                    #[trigger] listing(sessions, absolute, workspace)[i],
                    sessions[k],
                ),
        forall|i: int|
            0 <= i < listing(sessions, absolute, workspace).len() ==> exists|k: int|
                0 <= k < sessions.len() && belongs(#[trigger] sessions[k], absolute[k], workspace)
                    && tells_of(#[trigger] listing(sessions, absolute, workspace)[i], sessions[k]),
    decreases sessions.len(),
{
    if sessions.len() > 0 {
        let front = sessions.drop_last();
        let rest = listing(front, absolute, workspace);
        let all = listing(sessions, absolute, workspace);
        let session = sessions.last();
        let last = sessions.len() - 1;
        law_sessions_that_belong_are_listed(front, absolute, workspace);
        law_listings_are_ordered_and_filtered(front, absolute, workspace);
        lemma_was_used(session);
        let fits = belongs(session, absolute[last], workspace);
        if fits {
            lemma_filed(rest, session.summarized());
            lemma_filed_keeps(rest, session.summarized());
        }
        assert forall|k: int|
            0 <= k < sessions.len() && belongs(
                #[trigger] sessions[k],
                absolute[k],
                workspace,
            ) implies exists|i: int|
            0 <= i < all.len() && tells_of(#[trigger] all[i], sessions[k]) by {
            if k < last {
                assert(front[k] == sessions[k]);
                let i = choose|i: int|
                    0 <= i < rest.len() && tells_of(#[trigger] rest[i], sessions[k]);
                if fits {
                    assert(all.contains(rest[i]));
                    let j = choose|j: int| 0 <= j < all.len() && all[j] == rest[i];
                    assert(tells_of(all[j], sessions[k]));
                }
            } else {
                assert(all.contains(session.summarized()));
                let j = choose|j: int| 0 <= j < all.len() && all[j] == session.summarized();
                assert(tells_of(all[j], sessions[k]));
            }
        }
        assert forall|i: int| 0 <= i < all.len() implies exists|k: int|
            0 <= k < sessions.len() && belongs(#[trigger] sessions[k], absolute[k], workspace)
                && tells_of(#[trigger] all[i], sessions[k]) by {
            if fits && all[i] == session.summarized() {
                assert(belongs(sessions[last], absolute[last], workspace));
            } else {
                assert(rest.contains(all[i]));
                let m = choose|m: int| 0 <= m < rest.len() && rest[m] == all[i];
                let k = choose|k: int|
                    0 <= k < front.len() && belongs(#[trigger] front[k], absolute[k], workspace)
                        && tells_of(rest[m], front[k]);
                assert(sessions[k] == front[k]);
            }
        }
    }
}

proof fn lemma_filed_keeps(list: Seq<SummaryModel>, next: SummaryModel)
    ensures
        filed(list, next).contains(next),
        forall|i: int| 0 <= i < list.len() ==> filed(list, next).contains(#[trigger] list[i]),
    decreases list.len(),
{
    let all = filed(list, next);
    if list.len() == 0 || !before(list.last().updated_at, next.updated_at) {
        assert(all[list.len() as int] == next);
        assert forall|i: int| 0 <= i < list.len() implies all.contains(#[trigger] list[i]) by {
            assert(all[i] == list[i]);
        }
    } else {
        let front = list.drop_last();
        let inner = filed(front, next);
        lemma_filed_keeps(front, next);
        let k = choose|k: int| 0 <= k < inner.len() && inner[k] == next;
        assert(all[k] == next);
        assert forall|i: int| 0 <= i < list.len() implies all.contains(#[trigger] list[i]) by {
            if i < front.len() {
                assert(front[i] == list[i]);
                assert(inner.contains(front[i]));
                let m = choose|m: int| 0 <= m < inner.len() && inner[m] == front[i];
                assert(all[m] == list[i]);
            } else {
                assert(all[inner.len() as int] == list[i]);
            }
        }
    }
}

/// A text comes before another where the first character in which they differ is the smaller one,
/// or where it is the front of the other; nothing comes before itself.
pub proof fn law_texts_are_ordered_by_their_first_difference(
    common: Seq<char>,
    x: char,
    y: char,
    s: Seq<char>,
    t: Seq<char>,
)
    requires
        x < y,
    ensures
        before(common.push(x) + s, common.push(y) + t),
        !before(common.push(y) + t, common.push(x) + s),
        before(common, common.push(y) + t),
        !before(common.push(y) + t, common),
        !before(common, common),
    decreases common.len(),
{
    let a = common.push(x) + s;
    let b = common.push(y) + t;
    if common.len() > 0 {
        let rest = common.drop_first();
        law_texts_are_ordered_by_their_first_difference(rest, x, y, s, t);
        assert(a.drop_first() =~= rest.push(x) + s);
        assert(b.drop_first() =~= rest.push(y) + t);
        assert(a[0] == common[0] && b[0] == common[0]);
    } else {
        assert(a[0] == x && b[0] == y);
    }
}

/// What is wrong with a saved session is said: its version first, then its id, then its plan.
pub proof fn law_unsound_sessions_are_refused(session: SessionModel, plan_is_absolute: bool)
    ensures
        session.schema_version != 1 ==> session.problem(plan_is_absolute) == Some(
            "Unsupported session schema version "@ + decimal(session.schema_version as nat),
        ),
        session.schema_version == 1 && !parses_as_uuid(session.id) ==> session.problem(
            plan_is_absolute,
        ) == Some("Session contains invalid UUID"@),
        session.schema_version == 1 && parses_as_uuid(session.id) && session.pending_plan is Some
            && (trim(session.pending_plan->0).len() == 0 || !plan_is_absolute) ==> session.problem(
            plan_is_absolute,
        ) == Some("Session contains invalid pending plan path"@),
        session.schema_version == 1 && parses_as_uuid(session.id) && (session.pending_plan is None
            || (trim(session.pending_plan->0).len() > 0 && plan_is_absolute))
            ==> session.problem(plan_is_absolute) is None,
{
}

/// Refreshing a session dates it and leaves all else but a title that was not generated.
pub proof fn law_refreshing_dates_a_session(session: SessionModel, now: Seq<char>)
    ensures
        ({
            let r = session.refreshed(now);
            &&& r.updated_at == now
            &&& r.schema_version == session.schema_version
            &&& r.id == session.id
            &&& r.title_generated == session.title_generated
            &&& session.title_generated ==> r.title == session.title
            &&& r.workspace_root == session.workspace_root
            &&& r.created_at == session.created_at
            &&& r.provider == session.provider
            &&& r.model == session.model
            &&& r.reasoning_effort == session.reasoning_effort
            &&& r.plan_mode_enabled == session.plan_mode_enabled
            &&& r.pending_plan == session.pending_plan
            &&& r.ui_messages == session.ui_messages
            &&& r.core_messages == session.core_messages
        }),
{
}

/// A session without a generated title is named after the first thing that the user said in it:
/// its words with single blanks between them, cut to sixty characters.
pub proof fn law_sessions_are_named_after_their_first_request(
    session: SessionModel,
    now: Seq<char>,
    k: int,
)
    requires
        !session.title_generated,
    ensures
        0 <= k < session.ui_messages.len() && session.ui_messages[k].role == "user"@ && trim(
            session.ui_messages[k].content,
        ).len() > 0 && (forall|i: int|
            0 <= i < k ==> (#[trigger] session.ui_messages[i]).role != "user"@ || trim(
                session.ui_messages[i].content,
            ).len() == 0) ==> session.refreshed(now).title == shortened(
            crate::text::join(crate::words::words(session.ui_messages[k].content), " "@),
            60,
        ),
        (forall|i: int|
            0 <= i < session.ui_messages.len() ==> (#[trigger] session.ui_messages[i]).role
                != "user"@ || trim(session.ui_messages[i].content).len() == 0)
            ==> session.refreshed(now).title == "Untitled session"@,
{
    lemma_first_request(session.ui_messages, k);
}

proof fn lemma_first_request(messages: Seq<ChatModel>, k: int)
    ensures
        0 <= k < messages.len() && messages[k].role == "user"@ && trim(messages[k].content).len()
            > 0 && (forall|i: int|
            0 <= i < k ==> (#[trigger] messages[i]).role != "user"@ || trim(
                messages[i].content,
            ).len() == 0) ==> first_request(messages) == Some(messages[k].content),
        (forall|i: int|
            0 <= i < messages.len() ==> (#[trigger] messages[i]).role != "user"@ || trim(
                messages[i].content,
            ).len() == 0) ==> first_request(messages) is None,
    decreases messages.len(),
{
    if messages.len() > 0 {
        let rest = messages.drop_first();
        lemma_first_request(rest, k - 1);
        assert forall|i: int| 0 <= i < rest.len() implies #[trigger] rest[i] == messages[i + 1] by {}
    }
}

/// A new session is empty, of the present version, dated now and without a title of its own.
pub proof fn law_new_sessions_are_empty(
    root: Seq<char>,
    provider: Seq<char>,
    model: Seq<char>,
    effort: Seq<char>,
    id: Seq<char>,
    now: Seq<char>,
)
    ensures
        ({
            let s = SessionModel::fresh(root, provider, model, effort, id, now);
            &&& s.schema_version == 1
            &&& s.id == id
            &&& s.title == "Untitled session"@
            &&& !s.title_generated
            &&& s.workspace_root == root
            &&& s.created_at == now
            &&& s.updated_at == now
            &&& s.provider == provider
            &&& s.model == model
            &&& s.reasoning_effort == effort
            &&& !s.plan_mode_enabled
            &&& s.pending_plan is None
            &&& s.ui_messages.len() == 0
            &&& s.core_messages.len() == 0
        }),
{
}

} // verus!
