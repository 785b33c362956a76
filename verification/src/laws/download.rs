//! What playing a recording gives.
use vstd::prelude::*;

use crate::config::ConfigView;
use crate::download::{disposition, download_by_id, download_by_token, is_header_value};
use crate::effect::{DiskOpView, EffectView, QueryView, ReplyView};
use crate::flow::{PendingView, StepView};
use crate::identity::{is_generated, law_session_id_is_plain, IdentityView};
use crate::messages::{
    AudioFileView, FailureView, OutcomeView, ResponseView, INTERNAL_SERVER_ERROR, NOT_FOUND,
};
use crate::outside::header_char;
use crate::server::resumed;
use crate::world::{
    ends, ends_where, fairly, lemma_step, lemma_step_where, opens, opens_some, sound, World,
};

verus! {

/// The response that plays `data` as the recording of a session.
pub open spec fn plays(id: Seq<char>, data: Seq<u8>) -> OutcomeView {
    Ok(
        ResponseView::Audio(
            AudioFileView {
                content_type: "audio/webm"@,
                content_disposition: disposition(id),
                data,
            },
        ),
    )
}

/// Playing a session's recording by its id gives the bytes of the file that the session's row
/// names, or the server's failure; a session that is unknown or not finalized is not found; and
/// nothing changes.
pub proof fn law_download_by_id_plays_the_file(
    config: ConfigView,
    w: World,
    id: Seq<char>,
    smooth: bool,
    outcome: OutcomeView,
    end: World,
)
    requires
        ends(config, download_by_id(id), w, smooth, outcome, end),
    ensures
        end == w,
        outcome is Ok ==> {
            &&& w.sessions.contains_key(id)
            &&& w.sessions[id].output_path matches Some(path)
            &&& w.files.contains_key(path)
            &&& outcome == plays(id, w.files[path])
        },
        smooth && w.sessions.contains_key(id) && w.sessions[id].output_path is Some
            && is_header_value(disposition(id)) ==> outcome is Ok,
        smooth && !(w.sessions.contains_key(id) && w.sessions[id].output_path is Some) ==> outcome
            == OutcomeView::Err(
            FailureView { status: NOT_FOUND, message: "finalized file not found"@ },
        ),
{
    let (r1, w1) = lemma_step(
        config,
        PendingView::DownloadById { id },
        EffectView::Db(QueryView::OutputPathById { id }),
        w,
        smooth,
        outcome,
        end,
    );
    if !(r1 is Failed) && w.sessions.contains_key(id) && w.sessions[id].output_path is Some {
        let path = w.sessions[id].output_path->0;
        let (r2, w2) = lemma_step(
            config,
            PendingView::DownloadRead { session_id: id },
            EffectView::Disk(DiskOpView::ReadFile { path }),
            w1,
            smooth,
            outcome,
            end,
        );
    }
}

/// Playing a recording by its token gives the bytes of the file that the row of the session
/// names which the token opens, or the server's failure; a session that is not finalized is not
/// found; and nothing changes.
pub proof fn law_download_by_token_plays_the_file(
    config: ConfigView,
    w: World,
    token: Seq<char>,
    id: Seq<char>,
    smooth: bool,
    outcome: OutcomeView,
    end: World,
)
    requires
        sound(config, w),
        opens(w, token, id),
        ends(config, download_by_token(token), w, smooth, outcome, end),
    ensures
        end == w,
        outcome is Ok ==> {
            &&& w.sessions[id].output_path matches Some(path)
            &&& w.files.contains_key(path)
            &&& outcome == plays(id, w.files[path])
        },
        smooth && w.sessions[id].output_path is Some && is_header_value(disposition(id)) ==> outcome
            is Ok,
        smooth && w.sessions[id].output_path is None ==> outcome == OutcomeView::Err(
            FailureView { status: NOT_FOUND, message: "finalized file not found"@ },
        ),
{
    let (r1, w1) = lemma_step(
        config,
        PendingView::DownloadByToken,
        EffectView::Db(QueryView::RecordingByToken { token }),
        w,
        smooth,
        outcome,
        end,
    );
    if !(r1 is Failed) && w.sessions[id].output_path is Some {
        let path = w.sessions[id].output_path->0;
        let (r2, w2) = lemma_step(
            config,
            PendingView::DownloadRead { session_id: id },
            EffectView::Disk(DiskOpView::ReadFile { path }),
            w1,
            smooth,
            outcome,
            end,
        );
    }
}

/// A token that opens nothing plays nothing, and nothing changes.
pub proof fn law_download_by_unknown_token_is_refused(
    config: ConfigView,
    w: World,
    token: Seq<char>,
    smooth: bool,
    outcome: OutcomeView,
    end: World,
)
    requires
        !opens_some(w, token),
        ends(config, download_by_token(token), w, smooth, outcome, end),
    ensures
        end == w,
        outcome is Err,
        smooth ==> outcome == OutcomeView::Err(
            FailureView { status: NOT_FOUND, message: "recording not found"@ },
        ),
{
    let (r1, w1) = lemma_step(
        config,
        PendingView::DownloadByToken,
        EffectView::Db(QueryView::RecordingByToken { token }),
        w,
        smooth,
        outcome,
        end,
    );
}

/// The id of every session that the server opens can stand in the header that names its recording.
pub proof fn law_generated_id_can_be_played(identity: IdentityView)
    requires
        is_generated(identity),
    ensures
        is_header_value(disposition(identity.session_id)),
{
    let id = identity.session_id;
    law_session_id_is_plain(identity);
    reveal_strlit("inline; filename=\"");
    reveal_strlit(".webm\"");
    let head = "inline; filename=\""@;
    let tail = ".webm\""@;
    let text = disposition(id);
    assert forall|i: int| 0 <= i < text.len() implies header_char(#[trigger] text[i]) by {
        if i < head.len() {
            assert(text[i] == head[i]);
        } else if i < head.len() + id.len() {
            assert(text[i] == id[i - head.len()]);
        } else {
            assert(text[i] == tail[i - head.len() - id.len()]);
        }
    }
}

/// The response that plays `data` is one of audio in a WebM container, to be shown in place under
/// the session's id.
pub proof fn law_recording_is_played_as_audio(id: Seq<char>, data: Seq<u8>)
    ensures
        plays(id, data) == OutcomeView::Ok(
            ResponseView::Audio(
                AudioFileView {
                    content_type: "audio/webm"@,
                    content_disposition: "inline; filename=\""@ + id + ".webm\""@,
                    data,
                },
            ),
        ),
{
}

/// A finalized recording whose file is there is played, by its session's id and by its token,
/// wherever nothing fails but what has to.
pub proof fn law_download_succeeds(
    config: ConfigView,
    w: World,
    token: Seq<char>,
    id: Seq<char>,
    path: Seq<char>,
    by_token: bool,
    outcome: OutcomeView,
    end: World,
)
    requires
        sound(config, w),
        opens(w, token, id),
        w.sessions[id].output_path == Some(path),
        w.files.contains_key(path),
        is_header_value("inline; filename=\""@ + id + ".webm\""@),
        ends_where(
            config,
            if by_token {
                download_by_token(token)
            } else {
                download_by_id(id)
            },
            w,
            fairly(),
            outcome,
            end,
        ),
    ensures
        outcome == plays(id, w.files[path]),
        end == w,
{
    let w1 = if by_token {
        lemma_step_where(
            config,
            PendingView::DownloadByToken,
            EffectView::Db(QueryView::RecordingByToken { token }),
            w,
            fairly(),
            outcome,
            end,
        ).1
    } else {
        lemma_step_where(
            config,
            PendingView::DownloadById { id },
            EffectView::Db(QueryView::OutputPathById { id }),
            w,
            fairly(),
            outcome,
            end,
        ).1
    };
    let (r2, w2) = lemma_step_where(
        config,
        PendingView::DownloadRead { session_id: id },
        EffectView::Disk(DiskOpView::ReadFile { path }),
        w1,
        fairly(),
        outcome,
        end,
    );
}

/// A session whose id holds a control character cannot be played, and that is the server's failure.
pub proof fn law_id_with_control_character_is_not_played(
    config: ConfigView,
    id: Seq<char>,
    at: int,
    data: Seq<u8>,
)
    requires
        0 <= at < id.len(),
        id[at] < ' ' && id[at] != '\t' || id[at] == '\u{7f}',
    ensures
        resumed(
            config,
            PendingView::DownloadRead { session_id: id },
            ReplyView::Bytes(data),
        ) == (StepView::Finish {
            outcome: Err(
                FailureView {
                    status: INTERNAL_SERVER_ERROR,
                    message: "failed to parse header value"@,
                },
            ),
        }),
{
    let head = "inline; filename=\""@;
    let text = disposition(id);
    assert(text[head.len() + at] == id[at]);
    assert(!header_char(text[head.len() + at]));
}

} // verus!
