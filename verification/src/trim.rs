//! Navidrome's list of missing files, and how it is emptied.

use crate::config::Config;
use crate::json;
use crate::json::{Json, JsonView};
use crate::net;
use crate::net::{Body, BodyView, Reply, ReplyView, Request, RequestView};
use crate::organizer;
use crate::text;
use base64::Engine;
use vstd::prelude::*;

verus! {

/// The character for six bits in Base64.
pub open spec fn base64_char(n: int) -> char {
    if n < 26 {
        (65 + n) as char
    } else if n < 52 {
        (71 + n) as char
    } else if n < 62 {
        (n - 4) as char
    } else if n == 62 {
        '+'
    } else {
        '/'
    }
}

/// Bytes in Base64: four characters for three bytes, the last group filled up with `=`.
pub open spec fn base64_text(bytes: Seq<u8>) -> Seq<char>
    decreases bytes.len(),
{
    if bytes.len() == 0 {
        Seq::empty()
    } else if bytes.len() == 1 {
        let n = bytes[0] * 16;
        seq![base64_char(n / 64), base64_char(n % 64), '=', '=']
    } else if bytes.len() == 2 {
        let n = bytes[0] * 1024 + bytes[1] * 4;
        seq![base64_char(n / 4096), base64_char(n / 64 % 64), base64_char(n % 64), '=']
    } else {
        let n = bytes[0] * 65536 + bytes[1] * 256 + bytes[2];
        seq![
            base64_char(n / 262144),
            base64_char(n / 4096 % 64),
            base64_char(n / 64 % 64),
            base64_char(n % 64),
        ] + base64_text(bytes.skip(3))
    }
}

/// `Engine::encode` of `base64::engine::general_purpose::STANDARD`: the bytes in Base64, with the
/// standard alphabet and padding. It panics where the text would not fit in memory.
#[verifier::external_body]
fn encode_base64(bytes: &[u8]) -> (r: String)
    requires
        bytes@.len() <= 0x4000_0000,
    ensures
        r@ == base64_text(bytes@),
{
    base64::engine::general_purpose::STANDARD.encode(bytes)
}

/// Name and password as they are sent.
pub open spec fn credentials(username: Seq<char>, password: Seq<char>) -> Seq<u8> {
    vstd::utf8::encode_utf8(username + ":"@ + password)
}

/// The request that empties the list.
pub open spec fn purge_request(base: Seq<char>, username: Seq<char>, password: Seq<char>) -> RequestView {
    RequestView {
        method: "DELETE"@,
        url: text::strip_back(base, text::among("/"@)) + "/api/missing"@,
        headers: seq![
            ("Authorization"@, "Basic "@ + base64_text(credentials(username, password))),
        ],
        body: BodyView::Nothing,
        timeout_ms: 30_000,
    }
}

/// The request that removes every missing file from Navidrome's list.
pub fn purge_missing(base: &str, username: &str, password: &str) -> (r: Request)
    requires
        credentials(username@, password@).len() <= 0x4000_0000,
    ensures
        r@ == purge_request(base@, username@, password@),
{
    let mut who = text::copy(username);
    who.append(":");
    who.append(password);
    let token = encode_base64(who.as_str().as_bytes());
    let mut sent = net::no_headers();
    net::put_header(&mut sent, "Authorization", text::join_two("Basic ", token.as_str()).as_str());
    let ghost want = purge_request(base@, username@, password@);
    assert(organizer::pair_views(sent@) =~= want.headers);
    Request {
        method: text::copy("DELETE"),
        url: text::join_two(text::trim_back(base, "/").as_str(), "/api/missing"),
        headers: sent,
        body: Body::Nothing,
        timeout_ms: 30_000,
    }
}

/// How many files an answer says were removed, nought where it does not say.
pub open spec fn removed_in(doc: Option<JsonView>) -> int {
    match json::natural(doc) {
        Some(n) => n,
        None => 0,
    }
}

pub fn removed(doc: &Option<Json>) -> (r: u64)
    ensures
        r == removed_in(json::doc_view(*doc)),
{
    match json::natural_value(json::root(doc)) {
        Some(n) => n,
        None => 0,
    }
}

/// What is said of a request that came to nothing.
pub open spec fn purge_failure(reply: ReplyView) -> Option<Seq<char>> {
    match reply {
        ReplyView::Answer { status, body } => if status == 200 || status == 204 {
            None
        } else {
            Some("navidrome DELETE /api/missing HTTP "@ + text::decimal_int(status))
        },
        ReplyView::Silent => Some("navidrome DELETE /api/missing: no response"@),
        ReplyView::Failed { cause } => Some("navidrome DELETE /api/missing failed: "@ + cause),
    }
}

/// What came of the request: how many files were removed, or what went wrong.
pub fn purge_outcome(reply: &Reply) -> (r: Result<u64, String>)
    ensures
        match r {
            Ok(n) => {
                &&& purge_failure(reply@) is None
                &&& (reply@ matches ReplyView::Answer { status, body } && n == removed_in(
                    json::document(body),
                ))
            },
            Err(e) => purge_failure(reply@) == Some(e@),
        },
{
    match reply {
        Reply::Answer { status, body } => if *status == 200 || *status == 204 {
            Ok(removed(&json::parse(body.as_str())))
        } else {
            Err(
                text::join_two(
                    "navidrome DELETE /api/missing HTTP ",
                    text::format_int(*status as i64).as_str(),
                ),
            )
        },
        Reply::Silent => Err(text::copy("navidrome DELETE /api/missing: no response")),
        Reply::Failed { cause } => Err(
            text::join_two("navidrome DELETE /api/missing failed: ", cause.as_str()),
        ),
    }
}

// ---------------------------------------------------------------------------
// Who asks, and where

/// The server that is asked.
pub open spec fn server(host: Option<Seq<char>>) -> Seq<char> {
    match host {
        Some(h) => "http://"@ + h,
        None => "http://navidrome:4533"@,
    }
}

/// The account: the administrator that is set, else the user that scans.
pub open spec fn account(cfg: Config, scan_user: Seq<char>) -> Seq<char> {
    if text::trimmed(cfg.navidrome_admin_user@).len() == 0 {
        scan_user
    } else {
        text::trimmed(cfg.navidrome_admin_user@)
    }
}

/// Whether the list is emptied: where that is switched on, and there are account and password.
pub open spec fn trims(cfg: Config, scan_user: Seq<char>) -> bool {
    cfg.trim_missing_days > 0 && account(cfg, scan_user).len() > 0 && text::trimmed(
        cfg.navidrome_admin_password@,
    ).len() > 0
}

/// Server, account and password, where the list is to be emptied.
pub fn do_trim_missing(cfg: &Config, server_host: &Option<String>, scan_user: &str) -> (r: Option<
    (String, String, String),
>)
    ensures
        match r {
            Some(t) => trims(*cfg, scan_user@) && t.0@ == server(text::view_opt(*server_host))
                && t.1@ == account(*cfg, scan_user@) && t.2@ == text::trimmed(
                cfg.navidrome_admin_password@,
            ),
            None => !trims(*cfg, scan_user@),
        },
{
    let admin = text::trim(cfg.navidrome_admin_user.as_str());
    let user = if text::length(admin.as_str()) == 0 {
        text::copy(scan_user)
    } else {
        admin
    };
    let password = text::trim(cfg.navidrome_admin_password.as_str());
    if cfg.trim_missing_days <= 0 || text::length(user.as_str()) == 0 || text::length(
        password.as_str(),
    ) == 0 {
        return None;
    }
    let base = match server_host {
        Some(h) => text::join_two("http://", h.as_str()),
        None => text::copy("http://navidrome:4533"),
    };
    Some((base, user, password))
}

} // verus!
