//! Which address is answered by what.
use vstd::prelude::*;

use crate::identity::IdentityView;
use crate::session::session_links;

verus! {

/// The method of an HTTP request.
#[derive(Debug, Clone, Copy, PartialEq, Eq)]
pub enum Method {
    Get,
    Post,
    Delete,
}

/// What the server can be asked for.
#[derive(Debug, Clone, Copy, PartialEq, Eq)]
pub enum Endpoint {
    Health,
    CreateSession,
    GetSession,
    DeleteSession,
    UploadChunk,
    FinalizeSession,
    DownloadFile,
    UploadChunkByToken,
    FinalizeByToken,
    DeleteByToken,
    DownloadFileByToken,
    RecorderPage,
    RecorderPageWithSlash,
}

/// The addresses of an endpoint: what stands before the variable segment, the name of that
/// segment in braces, and what stands behind it. Without a variable segment all stands before.
pub struct Address {
    pub before: Seq<char>,
    pub segment: Seq<char>,
    pub behind: Seq<char>,
}

/// The method of an endpoint.
pub open spec fn method_of(endpoint: Endpoint) -> Method {
    match endpoint {
        Endpoint::Health => Method::Get,
        Endpoint::CreateSession => Method::Post,
        Endpoint::GetSession => Method::Get,
        Endpoint::DeleteSession => Method::Delete,
        Endpoint::UploadChunk => Method::Post,
        Endpoint::FinalizeSession => Method::Post,
        Endpoint::DownloadFile => Method::Get,
        Endpoint::UploadChunkByToken => Method::Post,
        Endpoint::FinalizeByToken => Method::Post,
        Endpoint::DeleteByToken => Method::Delete,
        Endpoint::DownloadFileByToken => Method::Get,
        Endpoint::RecorderPage => Method::Get,
        Endpoint::RecorderPageWithSlash => Method::Get,
    }
}

/// The addresses of an endpoint.
pub open spec fn address_of(endpoint: Endpoint) -> Address {
    let sessions = "/api/sessions/"@;
    let secret = "/api/r/"@;
    let page = "/r/"@;
    match endpoint {
        Endpoint::Health => Address { before: "/api/health"@, segment: ""@, behind: ""@ },
        Endpoint::CreateSession => Address { before: "/api/sessions"@, segment: ""@, behind: ""@ },
        Endpoint::GetSession => Address { before: sessions, segment: "{id}"@, behind: ""@ },
        Endpoint::DeleteSession => Address { before: sessions, segment: "{id}"@, behind: ""@ },
        Endpoint::UploadChunk => Address {
            before: sessions,
            segment: "{id}"@,
            behind: "/chunks"@,
        },
        Endpoint::FinalizeSession => Address {
            before: sessions,
            segment: "{id}"@,
            behind: "/finalize"@,
        },
        Endpoint::DownloadFile => Address { before: sessions, segment: "{id}"@, behind: "/file"@ },
        Endpoint::UploadChunkByToken => Address {
            before: secret,
            segment: "{token}"@,
            behind: "/chunks"@,
        },
        Endpoint::FinalizeByToken => Address {
            before: secret,
            segment: "{token}"@,
            behind: "/finalize"@,
        },
        Endpoint::DeleteByToken => Address { before: secret, segment: "{token}"@, behind: ""@ },
        Endpoint::DownloadFileByToken => Address {
            before: page,
            segment: "{token}"@,
            behind: "/file"@,
        },
        Endpoint::RecorderPage => Address { before: page, segment: "{token}"@, behind: ""@ },
        Endpoint::RecorderPageWithSlash => Address {
            before: page,
            segment: "{token}"@,
            behind: "/"@,
        },
    }
}

/// The route of an endpoint as the router takes it.
pub open spec fn pattern_of(endpoint: Endpoint) -> Seq<char> {
    let address = address_of(endpoint);
    address.before + address.segment + address.behind
}

/// Whether `url` is the address of `endpoint` for the id or token `value`: the variable segment
/// stands for any text that is not empty and holds no slash.
pub open spec fn is_address(url: Seq<char>, endpoint: Endpoint, value: Seq<char>) -> bool {
    let address = address_of(endpoint);
    &&& value.len() > 0
    &&& !value.contains('/')
    &&& url == address.before + value + address.behind
}

/// The method of an endpoint.
pub fn method(endpoint: Endpoint) -> (r: Method)
    ensures
        r == method_of(endpoint),
{
    match endpoint {
        Endpoint::Health => Method::Get,
        Endpoint::CreateSession => Method::Post,
        Endpoint::GetSession => Method::Get,
        Endpoint::DeleteSession => Method::Delete,
        Endpoint::UploadChunk => Method::Post,
        Endpoint::FinalizeSession => Method::Post,
        Endpoint::DownloadFile => Method::Get,
        Endpoint::UploadChunkByToken => Method::Post,
        Endpoint::FinalizeByToken => Method::Post,
        Endpoint::DeleteByToken => Method::Delete,
        Endpoint::DownloadFileByToken => Method::Get,
        Endpoint::RecorderPage => Method::Get,
        Endpoint::RecorderPageWithSlash => Method::Get,
    }
}

/// The route of an endpoint as the router takes it.
pub fn pattern(endpoint: Endpoint) -> (r: &'static str)
    ensures
        r@ == pattern_of(endpoint),
{
    let r: &'static str = match endpoint {
        Endpoint::Health => "/api/health",
        Endpoint::CreateSession => "/api/sessions",
        Endpoint::GetSession => "/api/sessions/{id}",
        Endpoint::DeleteSession => "/api/sessions/{id}",
        Endpoint::UploadChunk => "/api/sessions/{id}/chunks",
        Endpoint::FinalizeSession => "/api/sessions/{id}/finalize",
        Endpoint::DownloadFile => "/api/sessions/{id}/file",
        Endpoint::UploadChunkByToken => "/api/r/{token}/chunks",
        Endpoint::FinalizeByToken => "/api/r/{token}/finalize",
        Endpoint::DeleteByToken => "/api/r/{token}",
        Endpoint::DownloadFileByToken => "/r/{token}/file",
        Endpoint::RecorderPage => "/r/{token}",
        Endpoint::RecorderPageWithSlash => "/r/{token}/",
    };
    proof {
        reveal_strlit("");
        reveal_strlit("/");
        reveal_strlit("{id}");
        reveal_strlit("{token}");
        reveal_strlit("/chunks");
        reveal_strlit("/finalize");
        reveal_strlit("/file");
        reveal_strlit("/r/");
        reveal_strlit("/api/r/");
        reveal_strlit("/api/sessions/");
        reveal_strlit("/api/health");
        reveal_strlit("/api/sessions");
        reveal_strlit("/api/sessions/{id}");
        reveal_strlit("/api/sessions/{id}/chunks");
        reveal_strlit("/api/sessions/{id}/finalize");
        reveal_strlit("/api/sessions/{id}/file");
        reveal_strlit("/api/r/{token}/chunks");
        reveal_strlit("/api/r/{token}/finalize");
        reveal_strlit("/api/r/{token}");
        reveal_strlit("/r/{token}/file");
        reveal_strlit("/r/{token}");
        reveal_strlit("/r/{token}/");
        assert(r@ =~= pattern_of(endpoint));
    }
    r
}

/// A new session is answered with its id, and every link with it leads where it should: the secret
/// path to the recorder page, the file path to the recording, the delete path to its deletion, and
/// the upload base, with `/chunks` or `/finalize` behind it, to the upload of a chunk and to
/// finalizing.
pub proof fn law_links_lead_to_their_endpoints(identity: IdentityView)
    requires
        identity.secret_token.len() > 0,
        !identity.secret_token.contains('/'),
    ensures
        ({
            let links = session_links(identity);
            let token = identity.secret_token;
            &&& links.session_id == identity.session_id
            &&& is_address(links.secret_path, Endpoint::RecorderPageWithSlash, token)
            &&& is_address(links.file_path, Endpoint::DownloadFileByToken, token)
            &&& is_address(links.delete_path, Endpoint::DeleteByToken, token)
            &&& is_address(links.upload_base + "/chunks"@, Endpoint::UploadChunkByToken, token)
            &&& is_address(links.upload_base + "/finalize"@, Endpoint::FinalizeByToken, token)
        }),
{
    reveal_strlit("");
    let links = session_links(identity);
    assert(links.delete_path + ""@ =~= links.delete_path);
}

} // verus!
