//! A request by token comes to the session that the token opens.
use vstd::prelude::*;

use crate::config::ConfigView;
use crate::delete::{delete, delete_token};
use crate::effect::{EffectView, QueryView};
use crate::finalize::{finalize, finalize_token};
use crate::flow::PendingView;
use crate::messages::{FailureView, OutcomeView, UploadChunkReqView, NOT_FOUND};
use crate::upload::{upload, upload_by_token};
use crate::world::{ends_where, fairly, lemma_step_where, opens, opens_some, sound, World};

verus! {

/// Wherever nothing fails but what has to, an upload by token is one to the session that the token
/// opens, and is answered as not found where it opens none.
pub proof fn law_upload_by_token_finds_its_session(
    config: ConfigView,
    w: World,
    token: Seq<char>,
    req: UploadChunkReqView,
    outcome: OutcomeView,
    end: World,
)
    requires
        sound(config, w),
        ends_where(config, upload_by_token(token, req), w, fairly(), outcome, end),
    ensures
        forall|id: Seq<char>| #[trigger]
            opens(w, token, id) ==> ends_where(
                config,
                upload(config, id, req),
                w,
                fairly(),
                outcome,
                end,
            ),
        !opens_some(w, token) ==> end == w && outcome == OutcomeView::Err(
            FailureView { status: NOT_FOUND, message: "session not found"@ },
        ),
{
    let (r1, w1) = lemma_step_where(
        config,
        PendingView::UploadResolve { req },
        EffectView::Db(QueryView::SessionIdByToken { token }),
        w,
        fairly(),
        outcome,
        end,
    );
}

/// Wherever nothing fails but what has to, finalizing by token is finalizing the session that the
/// token opens, and is answered as not found where it opens none.
pub proof fn law_finalize_by_token_finds_its_session(
    config: ConfigView,
    w: World,
    token: Seq<char>,
    extension: Option<Seq<char>>,
    outcome: OutcomeView,
    end: World,
)
    requires
        sound(config, w),
        ends_where(config, finalize_token(token, extension), w, fairly(), outcome, end),
    ensures
        forall|id: Seq<char>| #[trigger]
            opens(w, token, id) ==> ends_where(
                config,
                finalize(config, id, extension),
                w,
                fairly(),
                outcome,
                end,
            ),
        !opens_some(w, token) ==> end == w && outcome == OutcomeView::Err(
            FailureView { status: NOT_FOUND, message: "session not found"@ },
        ),
{
    let (r1, w1) = lemma_step_where(
        config,
        PendingView::FinalizeResolve { extension },
        EffectView::Db(QueryView::SessionIdByToken { token }),
        w,
        fairly(),
        outcome,
        end,
    );
}

/// Wherever nothing fails but what has to, deleting by token is deleting the session that the token
/// opens, and is answered as not found where it opens none.
pub proof fn law_delete_by_token_finds_its_session(
    config: ConfigView,
    w: World,
    token: Seq<char>,
    outcome: OutcomeView,
    end: World,
)
    requires
        sound(config, w),
        ends_where(config, delete_token(token), w, fairly(), outcome, end),
    ensures
        forall|id: Seq<char>| #[trigger]
            opens(w, token, id) ==> ends_where(config, delete(id), w, fairly(), outcome, end),
        !opens_some(w, token) ==> end == w && outcome == OutcomeView::Err(
            FailureView { status: NOT_FOUND, message: "session not found"@ },
        ),
{
    let (r1, w1) = lemma_step_where(
        config,
        PendingView::DeleteResolve,
        EffectView::Db(QueryView::SessionIdByToken { token }),
        w,
        fairly(),
        outcome,
        end,
    );
}

} // verus!
