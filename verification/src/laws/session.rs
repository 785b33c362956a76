//! What opening a session and asking after one do.
use vstd::prelude::*;

use crate::config::ConfigView;
use crate::effect::{DiskOpView, EffectView, QueryView, ReplyView};
use crate::flow::PendingView;
use crate::identity::{is_generated, law_session_id_is_plain, IdentityView};
use crate::layout::{recorder_page, session_dir};
use crate::messages::{FailureView, OutcomeView, ResponseView, NOT_FOUND};
use crate::path::join;
use crate::session::{create, get, page, session_links};
use crate::world::{
    chunk_is_intact, chunk_is_placed, ends, ends_where, fairly, intact, is_fresh_row, keeps_chunks,
    keeps_session, lemma_step, lemma_step_where, opens, opens_some, server_failed,
    session_is_placed, sound, World,
};

verus! {

/// Whether exactly the session with this identity has been added, as one that is recording.
pub open spec fn is_opened(
    w: World,
    end: World,
    identity: IdentityView,
    mime_type: Option<Seq<char>>,
) -> bool {
    let id = identity.session_id;
    &&& !w.sessions.contains_key(id)
    &&& end.sessions.contains_key(id)
    &&& is_fresh_row(end.sessions[id], id, mime_type, identity.secret_token)
    &&& end.sessions == w.sessions.insert(id, end.sessions[id])
}

/// A request for a session adds one that is recording and that the token opens, or adds none; it
/// is answered with the session's links; and all else stays. Only the server's failure keeps it
/// from being answered.
pub proof fn law_created_session_is_open(
    config: ConfigView,
    w: World,
    identity: IdentityView,
    mime_type: Option<Seq<char>>,
    smooth: bool,
    outcome: OutcomeView,
    end: World,
)
    requires
        sound(config, w),
        is_generated(identity),
        ends(config, create(identity, mime_type), w, smooth, outcome, end),
    ensures
        sound(config, end),
        keeps_chunks(w, end),
        end.chunks == w.chunks,
        end.files == w.files,
        is_opened(w, end, identity, mime_type) || (end.sessions == w.sessions && outcome is Err),
        outcome is Ok ==> outcome == OutcomeView::Ok(
            ResponseView::Created(session_links(identity)),
        ) && opens(end, identity.secret_token, identity.session_id),
        outcome is Err ==> server_failed(outcome),
        smooth ==> outcome is Ok,
{
    let id = identity.session_id;
    law_session_id_is_plain(identity);
    let (r1, w1) = lemma_step(
        config,
        PendingView::CreateInsert { identity },
        EffectView::Db(
            QueryView::InsertSession { id, mime_type, secret_token: identity.secret_token },
        ),
        w,
        smooth,
        outcome,
        end,
    );
    if r1 is Done {
        let (r2, w2) = lemma_step(
            config,
            PendingView::CreateDir { identity },
            EffectView::Disk(
                DiskOpView::CreateDirAll { path: session_dir(config.data_dir, id) },
            ),
            w1,
            smooth,
            outcome,
            end,
        );
    }
    assert forall|k: (Seq<char>, i64)| #[trigger] end.chunks.contains_key(k) implies
        chunk_is_placed(config, end, k) by {
        assert(chunk_is_placed(config, w, k));
    }
    assert forall|i: Seq<char>| #[trigger] keeps_session(w, end, i) by {
        assert forall|idx: i64|
            intact(w, i) && #[trigger] end.chunks.contains_key((i, idx)) implies chunk_is_intact(
            end,
            (i, idx),
        ) by {
            assert(chunk_is_intact(w, (i, idx)));
        }
    }
    assert forall|i: Seq<char>| #[trigger] end.sessions.contains_key(i) implies
        session_is_placed(config, end, i) by {
        if i != id || end.sessions == w.sessions {
            assert(w.sessions.contains_key(i));
            assert(session_is_placed(config, w, i));
        }
    }
    assert forall|token: Seq<char>, i: Seq<char>, other: Seq<char>| #[trigger]
        opens(end, token, i) && #[trigger] opens(end, token, other) implies i == other by {
        if end.sessions == w.sessions {
            assert(opens(w, token, i) && opens(w, token, other));
        } else {
            if i != id {
                assert(opens(w, token, i));
            }
            if other != id {
                assert(opens(w, token, other));
            }
        }
    }
}

/// Asking after a session gives its row as it stands, or that there is none; and nothing changes.
pub proof fn law_get_gives_the_row(
    config: ConfigView,
    w: World,
    id: Seq<char>,
    smooth: bool,
    outcome: OutcomeView,
    end: World,
)
    requires
        ends(config, get(id), w, smooth, outcome, end),
    ensures
        end == w,
        server_failed(outcome) && !smooth || outcome == (if w.sessions.contains_key(id) {
            OutcomeView::Ok(ResponseView::Session(w.sessions[id]))
        } else {
            OutcomeView::Err(FailureView { status: NOT_FOUND, message: "session not found"@ })
        }),
{
    let (r1, w1) = lemma_step(
        config,
        PendingView::GetLookup,
        EffectView::Db(QueryView::SessionById { id }),
        w,
        smooth,
        outcome,
        end,
    );
}

/// Every token's page is the recorder page of the web directory; and nothing changes.
pub proof fn law_page_is_the_recorder(
    config: ConfigView,
    w: World,
    smooth: bool,
    outcome: OutcomeView,
    end: World,
)
    requires
        ends(config, page(config), w, smooth, outcome, end),
    ensures
        end == w,
        server_failed(outcome) && !smooth || {
            &&& outcome matches Ok(ResponseView::Page(text))
            &&& w.files.contains_key(recorder_page(config.web_dir))
            &&& vstd::utf8::encode_utf8(text) == w.files[recorder_page(config.web_dir)]
        },
{
    let (r1, w1) = lemma_step(
        config,
        PendingView::PageRead,
        EffectView::Disk(DiskOpView::ReadText { path: recorder_page(config.web_dir) }),
        w,
        smooth,
        outcome,
        end,
    );
}

/// A request for a session whose id and token are new is answered wherever nothing fails but what
/// has to: the session is recording and its directory is there. One whose id or token is taken is
/// the server's failure, and changes nothing.
pub proof fn law_create_succeeds(
    config: ConfigView,
    w: World,
    identity: IdentityView,
    mime_type: Option<Seq<char>>,
    outcome: OutcomeView,
    end: World,
)
    requires
        is_generated(identity),
        ends_where(config, create(identity, mime_type), w, fairly(), outcome, end),
    ensures
        !w.sessions.contains_key(identity.session_id) && !opens_some(w, identity.secret_token)
            ==> {
            &&& outcome == OutcomeView::Ok(ResponseView::Created(session_links(identity)))
            &&& is_opened(w, end, identity, mime_type)
            &&& end.dirs.contains(session_dir(config.data_dir, identity.session_id))
        },
        w.sessions.contains_key(identity.session_id) || opens_some(w, identity.secret_token)
            ==> server_failed(outcome) && end == w,
{
    let id = identity.session_id;
    let (r1, w1) = lemma_step_where(
        config,
        PendingView::CreateInsert { identity },
        EffectView::Db(
            QueryView::InsertSession { id, mime_type, secret_token: identity.secret_token },
        ),
        w,
        fairly(),
        outcome,
        end,
    );
    if r1 is Done {
        let (r2, w2) = lemma_step_where(
            config,
            PendingView::CreateDir { identity },
            EffectView::Disk(
                DiskOpView::CreateDirAll { path: session_dir(config.data_dir, id) },
            ),
            w1,
            fairly(),
            outcome,
            end,
        );
    }
}

/// Asking after a session is answered with its row wherever nothing fails but what has to.
pub proof fn law_get_succeeds(
    config: ConfigView,
    w: World,
    id: Seq<char>,
    outcome: OutcomeView,
    end: World,
)
    requires
        w.sessions.contains_key(id),
        ends_where(config, get(id), w, fairly(), outcome, end),
    ensures
        outcome == OutcomeView::Ok(ResponseView::Session(w.sessions[id])),
{
    let (r1, w1) = lemma_step_where(
        config,
        PendingView::GetLookup,
        EffectView::Db(QueryView::SessionById { id }),
        w,
        fairly(),
        outcome,
        end,
    );
}

/// Where the file `index.html` of the web directory holds a text, that text is the page, wherever
/// nothing fails but what has to.
pub proof fn law_page_succeeds(
    config: ConfigView,
    w: World,
    text: Seq<char>,
    outcome: OutcomeView,
    end: World,
)
    requires
        w.files.contains_key(join(config.web_dir, "index.html"@)),
        w.files[join(config.web_dir, "index.html"@)] == vstd::utf8::encode_utf8(text),
        ends_where(config, page(config), w, fairly(), outcome, end),
    ensures
        outcome == OutcomeView::Ok(ResponseView::Page(text)),
        end == w,
{
    let (r1, w1) = lemma_step_where(
        config,
        PendingView::PageRead,
        EffectView::Disk(DiskOpView::ReadText { path: recorder_page(config.web_dir) }),
        w,
        fairly(),
        outcome,
        end,
    );
    vstd::utf8::encode_utf8_decode_utf8(text);
    if let ReplyView::Page(page_text) = r1 {
        vstd::utf8::encode_utf8_decode_utf8(page_text);
    }
}

} // verus!
