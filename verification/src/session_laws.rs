//! What holds of every session, whatever its engine answers.

use crate::backend::BackendMessageView;
use crate::engine::Engine;
use crate::frontend::ClientMessageView;
use crate::protocol::{ErrorResponseView, FieldDescriptionView, FormatCode, Severity};
use crate::session::{
    bind_asked, error_reply, executed, greeting, message, on_bind, on_execute, on_parse,
    on_query, on_startup, query_asked, react_spec, ready, result_format, result_replies, settle,
    step_spec, ConnectionState, EventView, Fetched, NextView, Outcome, PortalView, Queried,
    ReactionView, ReplyView, SessionView,
};
use vstd::prelude::*;

verus! {

/// Whether a reply reports an error.
pub open spec fn is_error(r: ReplyView) -> bool {
    r matches ReplyView::Message(BackendMessageView::ErrorResponse(_))
}

/// Whether a reply is one of those that answer a request of the extended
/// protocol: everything a session sends but the refusal of SSL, the
/// greeting, errors, and the report that it is ready.
pub open spec fn is_progress(r: ReplyView) -> bool {
    match r {
        ReplyView::Message(m) => m is ParseComplete || m is BindComplete || m
            is ParameterDescription || m is RowDescription || m is NoData || m is DataRow || m
            is CommandComplete || m is EmptyQueryResponse,
        ReplyView::SslRefusal => false,
    }
}

/// Whether a message is a request of the extended protocol other than
/// `Sync`.
pub open spec fn is_extended(msg: ClientMessageView) -> bool {
    msg is Parse || msg is Bind || msg is Describe || msg is Execute
}

/// Whether the reactions are those of a session that starts in `pre` and
/// meets the events in turn, while its engine goes through the states
/// `engines`, one before each event and one after the last.
pub open spec fn follows<E: Engine>(
    pre: SessionView<E::PortalType>,
    engines: Seq<E>,
    events: Seq<EventView>,
    reactions: Seq<ReactionView<E::PortalType>>,
) -> bool
    decreases events.len(),
{
    events.len() == reactions.len() && engines.len() == events.len() + 1 && (events.len() == 0 || (
    react_spec(pre, engines[0], events[0], reactions[0], engines[1]) && follows(
        reactions[0].post,
        engines.drop_first(),
        events.drop_first(),
        reactions.drop_first(),
    )))
}

/// Everything written in a run of reactions, in order.
pub open spec fn all_replies<P>(reactions: Seq<ReactionView<P>>) -> Seq<ReplyView>
    decreases reactions.len(),
{
    if reactions.len() == 0 {
        Seq::empty()
    } else {
        reactions[0].replies + all_replies(reactions.drop_first())
    }
}

/// Whether two sessions have the same portals but for the engine's
/// handles: the same names, each bound to rows of the same description or
/// to none.
pub open spec fn same_bindings<P>(a: SessionView<P>, b: SessionView<P>) -> bool {
    &&& a.portals.dom() == b.portals.dom()
    &&& forall|name: Seq<char>| #[trigger]
        a.portals.contains_key(name) ==> match (a.portals[name], b.portals[name]) {
            (Some(x), Some(y)) => x.row_desc == y.row_desc,
            (None, None) => true,
            _ => false,
        }
}

/// What a step of an idle session can come to: it fails with an error to
/// report, having sent nothing and with its statements and the bindings of
/// its portals as they were; or it sent what its message calls for and the
/// session stays idle; or, for `Terminate`, it sent nothing and the
/// session ends.
pub proof fn lemma_idle_step<E: Engine>(
    pre: SessionView<E::PortalType>,
    before: E,
    msg: ClientMessageView,
    out: Outcome<E::PortalType>,
    after: E,
)
    requires
        pre.state == ConnectionState::Idle,
        step_spec(pre, before, msg, out, after),
    ensures
        out.post.state == ConnectionState::Idle,
        match out.result {
            Err(e) => e is ErrorResponse && out.sent.len() == 0 && out.post.statements
                == pre.statements && same_bindings(pre, out.post),
            Ok(Some(next)) => next == ConnectionState::Idle && !(msg is Terminate) && (forall|
                i: int,
            |
                0 <= i < out.sent.len() ==> !is_error(#[trigger] out.sent[i])),
            Ok(None) => msg is Terminate && out.sent.len() == 0 && out.post == pre,
        },
        is_extended(msg) && out.result is Ok ==> forall|i: int|
            0 <= i < out.sent.len() ==> is_progress(#[trigger] out.sent[i]),
        msg is Sync ==> out.sent == seq![ready()] && out.post == pre && out.result is Ok,
{
    match msg {
        ClientMessageView::Parse { prepared_statement_name, query, .. } => {
            let prepared = choose|prepared: Result<Seq<FieldDescriptionView>, ErrorResponseView>|
                before.prepares(query, &after, prepared) && out == on_parse(
                    pre,
                    prepared_statement_name,
                    query,
                    prepared,
                );
        },
        ClientMessageView::Bind { portal, prepared_statement_name, result_formats, .. } => {
            let created = choose|created: Result<E::PortalType, ErrorResponseView>|
                bind_asked(pre, before, prepared_statement_name, result_formats, created, after)
                    && out == on_bind(
                    pre,
                    portal,
                    prepared_statement_name,
                    result_formats,
                    created,
                );
        },
        ClientMessageView::Execute { portal, .. } => {
            let fetched = choose|fetched: Fetched<E::PortalType>|
                after == before && executed(pre, portal, fetched) && out == on_execute(
                    pre,
                    portal,
                    fetched,
                );
            if pre.portals.contains_key(portal) {
                match pre.portals[portal] {
                    Some(_) => {
                        assert(out.post.portals.dom() =~= pre.portals.dom());
                        if fetched.result is Ok {
                            let sent = result_replies(fetched.writer);
                            assert forall|i: int| 0 <= i < sent.len() implies is_progress(
                                #[trigger] sent[i],
                            ) && !is_error(sent[i]) by {}
                        }
                    },
                    None => {},
                }
            }
        },
        ClientMessageView::Query(sql) => {
            let answer = choose|answer: Queried<E::PortalType>|
                query_asked(before, sql, answer, after) && out == on_query(pre, answer);
            if out.result is Ok {
                let sent = out.sent;
                assert forall|i: int| 0 <= i < sent.len() implies !is_error(
                    #[trigger] sent[i],
                ) by {}
            }
        },
        _ => {},
    }
}

/// Startup idempotence of the request for SSL: a session that waits for
/// its startup packet answers a request for SSL with the refusal and
/// nothing else, and waits on as before.
pub proof fn lemma_ssl_request<E: Engine>(
    pre: SessionView<E::PortalType>,
    before: E,
    r: ReactionView<E::PortalType>,
    after: E,
)
    requires
        pre.state == ConnectionState::Startup,
        react_spec(pre, before, EventView::Message(ClientMessageView::SSLRequest), r, after),
    ensures
        r.replies == seq![ReplyView::SslRefusal],
        r.next == NextView::Continue,
        r.post == pre,
        after == before,
{
    let out = choose|out: Outcome<E::PortalType>| #[trigger]
        step_spec(pre, before, ClientMessageView::SSLRequest, out, after) && r == settle(out);
}

/// Startup idempotence of the request for SSL: however many requests for
/// SSL a client sends before its startup packet, each is answered with the
/// refusal alone and leaves the session as it was, so that the startup
/// packet is met by the session as it began.
pub proof fn lemma_ssl_requests<E: Engine>(
    pre: SessionView<E::PortalType>,
    engines: Seq<E>,
    events: Seq<EventView>,
    reactions: Seq<ReactionView<E::PortalType>>,
)
    requires
        pre.state == ConnectionState::Startup,
        follows(pre, engines, events, reactions),
        forall|i: int|
            0 <= i < events.len() ==> #[trigger] events[i] == EventView::Message(
                ClientMessageView::SSLRequest,
            ),
    ensures
        forall|i: int|
            0 <= i < reactions.len() ==> (#[trigger] reactions[i]).replies == seq![
                ReplyView::SslRefusal,
            ] && reactions[i].next == NextView::Continue && reactions[i].post == pre,
        forall|i: int| 0 <= i < engines.len() ==> #[trigger] engines[i] == engines[0],
    decreases events.len(),
{
    if events.len() > 0 {
        lemma_ssl_request(pre, engines[0], reactions[0], engines[1]);
        let rest_g = engines.drop_first();
        let rest_e = events.drop_first();
        let rest_r = reactions.drop_first();
        assert forall|i: int| 0 <= i < rest_e.len() implies #[trigger] rest_e[i]
            == EventView::Message(ClientMessageView::SSLRequest) by {
            assert(rest_e[i] == events[i + 1]);
        }
        lemma_ssl_requests(pre, rest_g, rest_e, rest_r);
        assert forall|i: int| 0 <= i < reactions.len() implies (#[trigger] reactions[i]).replies
            == seq![ReplyView::SslRefusal] && reactions[i].next == NextView::Continue
            && reactions[i].post == pre by {
            if i > 0 {
                assert(reactions[i] == rest_r[i - 1]);
            }
        }
        assert forall|i: int| 0 <= i < engines.len() implies #[trigger] engines[i]
            == engines[0] by {
            if i > 0 {
                assert(engines[i] == rest_g[i - 1]);
                assert(rest_g[0] == engines[1]);
            }
        }
    }
}

/// A session that waits for its startup packet accepts one: it sends the
/// greeting first; where no error is reported then, it reports itself
/// ready, with nothing else sent, and is idle.
pub proof fn lemma_startup_accepted<E: Engine>(
    pre: SessionView<E::PortalType>,
    before: E,
    parameters: Seq<(Seq<char>, Seq<char>)>,
    r: ReactionView<E::PortalType>,
    after: E,
)
    requires
        pre.state == ConnectionState::Startup,
        react_spec(
            pre,
            before,
            EventView::Message(ClientMessageView::Startup { parameters }),
            r,
            after,
        ),
    ensures
        r.replies.len() >= greeting().len(),
        r.replies.subrange(0, greeting().len() as int) == greeting(),
        (forall|i: int| 0 <= i < r.replies.len() ==> !is_error(#[trigger] r.replies[i]))
            ==> r.replies == greeting().push(ready()) && r.next == NextView::Continue && r.post
            == pre.in_state(ConnectionState::Idle),
{
    let msg = ClientMessageView::Startup { parameters };
    let out = choose|out: Outcome<E::PortalType>| #[trigger]
        step_spec(pre, before, msg, out, after) && r == settle(out);
    let started = choose|started: Result<(), ErrorResponseView>|
        before.starts(&after, started) && out == on_startup(pre, started);
    if started is Err {
        assert(is_error(r.replies[greeting().len() as int]));
    }
}

/// The extended-query invariant: where a client sends requests of the
/// extended protocol and then `Sync`, and no error is reported, the
/// session sends answers to those requests and nothing else, then exactly
/// once that it is ready; it is idle afterwards.
pub proof fn lemma_extended_group<E: Engine>(
    pre: SessionView<E::PortalType>,
    engines: Seq<E>,
    events: Seq<EventView>,
    reactions: Seq<ReactionView<E::PortalType>>,
)
    requires
        pre.state == ConnectionState::Idle,
        follows(pre, engines, events, reactions),
        events.len() >= 1,
        events.last() == EventView::Message(ClientMessageView::Sync),
        forall|i: int|
            0 <= i < events.len() - 1 ==> (#[trigger] events[i] matches EventView::Message(m)
                && is_extended(m)),
        forall|i: int|
            0 <= i < all_replies(reactions).len() ==> !is_error(
                #[trigger] all_replies(reactions)[i],
            ),
    ensures
        all_replies(reactions).len() >= 1,
        all_replies(reactions).last() == ready(),
        forall|i: int|
            0 <= i < all_replies(reactions).len() - 1 ==> is_progress(
                #[trigger] all_replies(reactions)[i],
            ),
        forall|i: int|
            0 <= i < reactions.len() ==> (#[trigger] reactions[i]).next == NextView::Continue,
        reactions.last().post.state == ConnectionState::Idle,
    decreases events.len(),
{
    let first = reactions[0];
    let rest_e = events.drop_first();
    let rest_r = reactions.drop_first();
    let all = all_replies(reactions);
    let later = all_replies(rest_r);
    let msg = events[0]->Message_0;
    let out = choose|out: Outcome<E::PortalType>| #[trigger]
        step_spec(pre, engines[0], msg, out, engines[1]) && first == settle(out);
    lemma_idle_step(pre, engines[0], msg, out, engines[1]);
    if out.result is Err {
        let at = out.sent.len() as int;
        assert(all[at] == first.replies[at]);
    }
    if events.len() > 1 {
        assert forall|i: int| 0 <= i < rest_e.len() - 1 implies (
        #[trigger] rest_e[i] matches EventView::Message(m) && is_extended(m)) by {}
        assert forall|i: int| 0 <= i < later.len() implies !is_error(#[trigger] later[i]) by {
            assert(all[first.replies.len() + i] == later[i]);
        }
        lemma_extended_group(first.post, engines.drop_first(), rest_e, rest_r);
        assert forall|i: int| 0 <= i < all.len() - 1 implies is_progress(#[trigger] all[i]) by {}
        assert forall|i: int| 0 <= i < reactions.len() implies (#[trigger] reactions[i]).next
            == NextView::Continue by {
            if i > 0 {
                assert(reactions[i] == rest_r[i - 1]);
            }
        }
    }
}

/// Error recovery: where an idle session meets a message and reports an
/// error that is not fatal, it writes that error and then that it is
/// ready, and nothing else; it goes on, idle, with its statements and the
/// bindings of its portals as they were, so that the requests that follow
/// are met as they would have been; a `Sync` that follows is answered with
/// ready and nothing else.
pub proof fn lemma_error_recovery<E: Engine>(
    pre: SessionView<E::PortalType>,
    before: E,
    msg: ClientMessageView,
    r: ReactionView<E::PortalType>,
    after: E,
    e: ErrorResponseView,
)
    requires
        pre.state == ConnectionState::Idle,
        react_spec(pre, before, EventView::Message(msg), r, after),
        e.severity == Severity::Error,
        r.replies.contains(error_reply(e)),
    ensures
        r.replies == seq![error_reply(e), ready()],
        r.next == NextView::Continue,
        r.post.state == ConnectionState::Idle,
        r.post.statements == pre.statements,
        same_bindings(pre, r.post),
        forall|next: Outcome<E::PortalType>, then: E| #[trigger]
            step_spec(r.post, after, ClientMessageView::Sync, next, then) ==> next.sent == seq![
                ready(),
            ] && next.result is Ok && next.post == r.post && then == after,
{
    let out = choose|out: Outcome<E::PortalType>| #[trigger]
        step_spec(pre, before, msg, out, after) && r == settle(out);
    lemma_idle_step(pre, before, msg, out, after);
    assert forall|next: Outcome<E::PortalType>, then: E| #[trigger]
        step_spec(r.post, after, ClientMessageView::Sync, next, then) implies next.sent == seq![
        ready(),
    ] && next.result is Ok && next.post == r.post && then == after by {
        lemma_idle_step(r.post, after, ClientMessageView::Sync, next, then);
    }
}

/// Portal ownership: a `Bind` that succeeds under a name that is already
/// bound puts the new portal in the place of the old one. The names that
/// are bound stay the same, the name holds the handle that the engine
/// made for this `Bind`, with the columns of the statement and the format
/// asked for, and every other portal is as it was.
pub proof fn lemma_bind_replaces<P>(
    pre: SessionView<P>,
    portal: Seq<char>,
    statement: Seq<char>,
    formats: Seq<FormatCode>,
    created: Result<P, ErrorResponseView>,
)
    requires
        pre.portals.contains_key(portal),
        on_bind(pre, portal, statement, formats, created).result is Ok,
    ensures
        created is Ok,
        ({
            let post = on_bind(pre, portal, statement, formats, created).post;
            &&& post.portals.dom() == pre.portals.dom()
            &&& post.portals[portal] == Some(
                PortalView {
                    portal: created->Ok_0,
                    row_desc: crate::protocol::RowDescriptionView {
                        fields: pre.statements[statement].fields,
                        format_code: result_format(formats),
                    },
                },
            )
            &&& forall|other: Seq<char>|
                other != portal && pre.portals.contains_key(other) ==> #[trigger] post.portals[other]
                    == pre.portals[other]
            &&& post.statements == pre.statements
        }),
{
}

} // verus!
