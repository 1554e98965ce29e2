//! Requests to Last.fm, ListenBrainz and Libre.fm, and what their answers mean.

use crate::config::Config;
use crate::json;
use crate::json::{Json, JsonView};
use crate::net;
use crate::net::{Body, BodyView, CircuitOp, Reply, ReplyView, Request, RequestView};
use crate::order;
use crate::organizer;
use crate::text;
use crate::url;
use md5::{Digest, Md5};
use vstd::prelude::*;

verus! {

/// The MD5 digest of bytes, in hexadecimal.
pub uninterp spec fn md5_hex(bytes: Seq<u8>) -> Seq<char>;

/// The digest that `md5::Md5` computes of the bytes, written out in lower-case hexadecimal.
#[verifier::external_body]
fn md5hex(bytes: &[u8]) -> (r: String)
    ensures
        r@ == md5_hex(bytes@),
{
    format!("{:x}", Md5::digest(bytes))
}

/// The digest of a text's bytes.
pub open spec fn digest(s: Seq<char>) -> Seq<char> {
    md5_hex(vstd::utf8::encode_utf8(s))
}

// ---------------------------------------------------------------------------
// Signed parameters

/// Parameters are ordered by name, then by value.
pub open spec fn pair_before() -> spec_fn((Seq<char>, Seq<char>), (Seq<char>, Seq<char>)) -> bool {
    |a: (Seq<char>, Seq<char>), b: (Seq<char>, Seq<char>)|
        order::text_before(a.0, b.0) || (a.0 == b.0 && order::text_before(a.1, b.1))
}

/// The parameters that a signature covers.
pub open spec fn covered(params: Seq<(Seq<char>, Seq<char>)>) -> Seq<(Seq<char>, Seq<char>)>
    decreases params.len(),
{
    if params.len() == 0 {
        params
    } else {
        let rest = covered(params.drop_last());
        if params.last().0 == "api_sig"@ || params.last().0 == "format"@ {
            rest
        } else {
            rest.push(params.last())
        }
    }
}

/// Names and values, one after the other.
pub open spec fn strung(params: Seq<(Seq<char>, Seq<char>)>) -> Seq<char>
    decreases params.len(),
{
    if params.len() == 0 {
        Seq::empty()
    } else {
        strung(params.drop_last()) + params.last().0 + params.last().1
    }
}

/// The covered parameters in their order.
pub open spec fn ordered(params: Seq<(Seq<char>, Seq<char>)>) -> Seq<(Seq<char>, Seq<char>)> {
    order::sorted_by(covered(params), pair_before())
}

/// The signature: the digest of the ordered parameters and the secret.
pub open spec fn signature(secret: Seq<char>, params: Seq<(Seq<char>, Seq<char>)>) -> Seq<char> {
    digest(strung(ordered(params)) + secret)
}

/// The parameters as they are sent: in order, with the signature and the format.
pub open spec fn signed(secret: Seq<char>, params: Seq<(Seq<char>, Seq<char>)>) -> Seq<
    (Seq<char>, Seq<char>),
> {
    ordered(params).push(("api_sig"@, signature(secret, params))).push(("format"@, "json"@))
}

fn sort_pairs(v: Vec<(String, String)>) -> (r: Vec<(String, String)>)
    ensures
        organizer::pair_views(r@) == order::sorted_by(organizer::pair_views(v@), pair_before()),
{
    let ghost shown = |p: (String, String)| (p.0@, p.1@);
    let ghost rel = |a: (String, String), b: (String, String)| pair_before()(shown(a), shown(b));
    let before = |a: &(String, String), b: &(String, String)| -> (x: bool)
        ensures
            x == pair_before()((a.0@, a.1@), (b.0@, b.1@)),
        {
            order::comes_before(a.0.as_str(), b.0.as_str()) || (text::same(
                a.0.as_str(),
                b.0.as_str(),
            ) && order::comes_before(a.1.as_str(), b.1.as_str()))
        };
    let ghost given = v@;
    let r = order::sort_by(v, before, Ghost(rel));
    proof {
        order::sorting_commutes(given, shown, pair_before());
        assert(organizer::pair_views(given) =~= given.map_values(shown));
        assert(organizer::pair_views(r@) =~= r@.map_values(shown));
    }
    r
}

/// The parameters as they are sent.
pub fn api_sig(secret: &str, params: Vec<(String, String)>) -> (r: Vec<(String, String)>)
    ensures
        organizer::pair_views(r@) == signed(secret@, organizer::pair_views(params@)),
{
    let ghost given = organizer::pair_views(params@);
    let mut kept: Vec<(String, String)> = Vec::new();
    let mut i: usize = 0;
    proof {
        assert(given.take(0) == Seq::<(Seq<char>, Seq<char>)>::empty());
        assert(organizer::pair_views(kept@) == Seq::<(Seq<char>, Seq<char>)>::empty());
    }
    while i < params.len()
        invariant
            i <= params@.len(),
            given == organizer::pair_views(params@),
            organizer::pair_views(kept@) == covered(given.take(i as int)),
        decreases params@.len() - i,
    {
        proof {
            assert(given.take(i + 1).drop_last() == given.take(i as int));
            assert(given.take(i + 1).last() == given[i as int]);
        }
        let name = params[i].0.as_str();
        if !text::same(name, "api_sig") && !text::same(name, "format") {
            net::put_header(&mut kept, name, params[i].1.as_str());
        }
        i = i + 1;
    }
    assert(given.take(i as int) == given);
    let mut sorted = sort_pairs(kept);
    let ghost order = organizer::pair_views(sorted@);
    let mut line = String::new();
    let mut j: usize = 0;
    assert(order.take(0) == Seq::<(Seq<char>, Seq<char>)>::empty());
    while j < sorted.len()
        invariant
            j <= sorted@.len(),
            order == organizer::pair_views(sorted@),
            line@ == strung(order.take(j as int)),
        decreases sorted@.len() - j,
    {
        proof {
            assert(order.take(j + 1).drop_last() == order.take(j as int));
            assert(order.take(j + 1).last() == order[j as int]);
        }
        line.append(sorted[j].0.as_str());
        line.append(sorted[j].1.as_str());
        j = j + 1;
    }
    assert(order.take(j as int) == order);
    line.append(secret);
    let sig = md5hex(line.as_str().as_bytes());
    net::put_header(&mut sorted, "api_sig", sig.as_str());
    net::put_header(&mut sorted, "format", "json");
    sorted
}

/// What is sent to Last.fm for a method: the given parameters, the key, the method, and the
/// session where there is one.
pub open spec fn post_params(
    cfg: Config,
    session: Seq<char>,
    method: Seq<char>,
    params: Seq<(Seq<char>, Seq<char>)>,
) -> Seq<(Seq<char>, Seq<char>)> {
    let with_method = params.push(("api_key"@, cfg.lastfm_api_key@)).push(("method"@, method));
    if session.len() > 0 {
        with_method.push(("sk"@, session))
    } else {
        with_method
    }
}

pub open spec fn form_headers() -> Seq<(Seq<char>, Seq<char>)> {
    seq![("Content-Type"@, "application/x-www-form-urlencoded"@)]
}

/// A signed request to Last.fm.
pub open spec fn signed_request(
    cfg: Config,
    session: Seq<char>,
    method: Seq<char>,
    params: Seq<(Seq<char>, Seq<char>)>,
) -> RequestView {
    net::posting(
        "https://ws.audioscrobbler.com/2.0/"@,
        form_headers(),
        BodyView::Text(
            url::form(
                signed(cfg.lastfm_api_secret@, post_params(cfg, session, method, params)),
            ),
        ),
        15_000,
    )
}

pub fn lastfm_post(cfg: &Config, session: &str, method: &str, params: Vec<(String, String)>) -> (r:
    Request)
    ensures
        r@ == signed_request(*cfg, session@, method@, organizer::pair_views(params@)),
{
    let mut all = params;
    net::put_header(&mut all, "api_key", cfg.lastfm_api_key.as_str());
    net::put_header(&mut all, "method", method);
    if text::length(session) > 0 {
        net::put_header(&mut all, "sk", session);
    }
    let sent = api_sig(cfg.lastfm_api_secret.as_str(), all);
    let mut headers = net::no_headers();
    net::put_header(&mut headers, "Content-Type", "application/x-www-form-urlencoded");
    assert(organizer::pair_views(headers@) =~= form_headers());
    net::post(
        text::copy("https://ws.audioscrobbler.com/2.0/"),
        headers,
        Body::Text(url::form_body(&sent)),
        15_000,
    )
}

/// The parameters of a question, each after an ampersand.
pub open spec fn query_tail(params: Seq<(Seq<char>, Seq<char>)>) -> Seq<char>
    decreases params.len(),
{
    if params.len() == 0 {
        Seq::empty()
    } else {
        query_tail(params.drop_last()) + "&"@ + params.last().0 + "="@ + url::encoded(
            params.last().1,
        )
    }
}

/// A question to Last.fm.
pub fn lastfm_get(cfg: &Config, method: &str, params: &Vec<(String, String)>) -> (r: Request)
    ensures
        r@ == net::asking(
            "https://ws.audioscrobbler.com/2.0/?"@ + "method="@ + method@ + "&api_key="@
                + cfg.lastfm_api_key@ + "&format=json"@ + query_tail(organizer::pair_views(params@)),
            Seq::empty(),
            15_000,
        ),
{
    let ghost all = organizer::pair_views(params@);
    let mut q = text::copy("https://ws.audioscrobbler.com/2.0/?");
    q.append("method=");
    q.append(method);
    q.append("&api_key=");
    q.append(cfg.lastfm_api_key.as_str());
    q.append("&format=json");
    let ghost start = q@;
    let mut i: usize = 0;
    assert(start + query_tail(all.take(0)) == start);
    while i < params.len()
        invariant
            i <= params@.len(),
            all == organizer::pair_views(params@),
            q@ == start + query_tail(all.take(i as int)),
        decreases params@.len() - i,
    {
        proof {
            assert(all.take(i + 1).drop_last() == all.take(i as int));
            assert(all.take(i + 1).last() == all[i as int]);
        }
        let ghost before = q@;
        q.append("&");
        q.append(params[i].0.as_str());
        q.append("=");
        q.append(url::urlencode(params[i].1.as_str()).as_str());
        assert(q@ == start + query_tail(all.take(i + 1)));
        i = i + 1;
    }
    assert(all.take(i as int) == all);
    net::ask(q, net::no_headers(), 15_000)
}

/// A signed request was answered: data clears the circuit, an error of the service leaves it, and
/// no answer opens it.
pub open spec fn post_op(reply: ReplyView) -> CircuitOp {
    match reply {
        ReplyView::Answer { status, body } => if status == 200 {
            CircuitOp::Clear
        } else {
            CircuitOp::Keep
        },
        _ => CircuitOp::MarkFailed,
    }
}

pub fn after_post(reply: &Reply) -> (r: CircuitOp)
    ensures
        r == post_op(reply@),
{
    match reply {
        Reply::Answer { status, body } => if *status == 200 {
            CircuitOp::Clear
        } else {
            CircuitOp::Keep
        },
        _ => CircuitOp::MarkFailed,
    }
}

/// A control character.
pub open spec fn is_control(c: char) -> bool {
    (c as u32) < 32 || (127 <= (c as u32) && (c as u32) < 160)
}

/// A text without its control characters.
pub open spec fn printable(s: Seq<char>) -> Seq<char>
    decreases s.len(),
{
    if s.len() == 0 {
        s
    } else if is_control(s.last()) {
        printable(s.drop_last())
    } else {
        printable(s.drop_last()).push(s.last())
    }
}

/// The beginning of an error's text, fit for one line.
pub open spec fn hint_of(body: Seq<char>) -> Seq<char> {
    let all = printable(body);
    text::trimmed(
        all.take(
            if all.len() < 160 {
                all.len() as int
            } else {
                160
            },
        ),
    )
}

/// Why a signed request failed; nothing where it was answered with 200.
pub open spec fn post_failure_of(reply: ReplyView) -> Option<Seq<char>> {
    match reply {
        ReplyView::Answer { status, body } => if status == 200 {
            None
        } else {
            Some("Last.fm HTTP "@ + text::decimal_int(status) + ": "@ + hint_of(body))
        },
        ReplyView::Silent => Some("Last.fm no response"@),
        ReplyView::Failed { cause } => Some("Last.fm request failed: "@ + cause),
    }
}

fn hint(body: &str) -> (r: String)
    ensures
        r@ == hint_of(body@),
{
    let v = text::chars_of(body);
    let mut kept: Vec<char> = Vec::new();
    let mut i: usize = 0;
    assert(body@.take(0) == Seq::<char>::empty());
    while i < v.len()
        invariant
            i <= v@.len(),
            v@ == body@,
            kept@ == printable(body@.take(i as int)),
        decreases v@.len() - i,
    {
        let c: char = v[i];
        proof {
            assert(body@.take(i + 1).drop_last() == body@.take(i as int));
            assert(body@.take(i + 1).last() == c);
        }
        let n: u32 = c as u32;
        if !(n < 32 || (127 <= n && n < 160)) {
            kept.push(c);
        }
        i = i + 1;
    }
    assert(body@.take(i as int) == body@);
    let n: usize = if kept.len() < 160 {
        kept.len()
    } else {
        160
    };
    let front = text::text_of(&kept, 0, n);
    assert(front@ == kept@.take(n as int));
    text::trim(front.as_str())
}

pub fn post_failure(reply: &Reply) -> (r: Option<String>)
    ensures
        text::view_opt(r) == post_failure_of(reply@),
{
    match reply {
        Reply::Answer { status, body } => if *status == 200 {
            None
        } else {
            let mut s = text::copy("Last.fm HTTP ");
            s.append(text::format_int(*status as i64).as_str());
            s.append(": ");
            s.append(hint(body.as_str()).as_str());
            Some(s)
        },
        Reply::Silent => Some(text::copy("Last.fm no response")),
        Reply::Failed { cause } => Some(text::join_two("Last.fm request failed: ", cause.as_str())),
    }
}

// ---------------------------------------------------------------------------
// Signing in

/// What is to be done for a session.
#[derive(Debug)]
pub enum SessionStep {
    /// One is there.
    Have(String),
    /// None can be had, for this reason.
    Refuse(String),
    /// One is to be asked for.
    SignIn,
}

pub enum SessionView {
    Have(Seq<char>),
    Refuse(Seq<char>),
    SignIn,
}

impl View for SessionStep {
    type V = SessionView;

    open spec fn view(&self) -> SessionView {
        match self {
            SessionStep::Have(s) => SessionView::Have(s@),
            SessionStep::Refuse(s) => SessionView::Refuse(s@),
            SessionStep::SignIn => SessionView::SignIn,
        }
    }
}

/// A stored session is used. Without credentials none is asked for, and none within five minutes
/// of the last attempt.
pub open spec fn session_of(
    cfg: Config,
    stored: Option<Seq<char>>,
    attempt: Option<Seq<char>>,
    error: Option<Seq<char>>,
    now: int,
) -> SessionView {
    if stored matches Some(s) && s.len() > 0 {
        SessionView::Have(stored->0)
    } else if cfg.lastfm_api_secret@.len() == 0 || cfg.lastfm_password@.len() == 0 {
        SessionView::Refuse(
            "favorites sync needs lastfmApiSecret + lastfmPassword (for the session key)"@,
        )
    } else {
        match net::stored_time(attempt) {
            Some(last) => if now - last < 300 {
                let wait = "Last.fm auth throttled (retry in ~"@ + text::decimal_int(
                    300 - (now - last),
                ) + "s)"@;
                SessionView::Refuse(
                    match error {
                        Some(e) => wait + ": "@ + e,
                        None => wait,
                    },
                )
            } else {
                SessionView::SignIn
            },
            None => SessionView::SignIn,
        }
    }
}

pub fn session(
    cfg: &Config,
    stored: &Option<String>,
    attempt: &Option<String>,
    error: &Option<String>,
    now: i64,
) -> (r: SessionStep)
    requires
        net::stored_time(text::view_opt(*attempt)) matches Some(last) ==> 300 - (now - last)
            <= i64::MAX,
    ensures
        r@ == session_of(
            *cfg,
            text::view_opt(*stored),
            text::view_opt(*attempt),
            text::view_opt(*error),
            now as int,
        ),
{
    match stored {
        Some(s) => {
            if text::length(s.as_str()) > 0 {
                return SessionStep::Have(s.clone());
            }
        },
        None => {},
    }
    if text::length(cfg.lastfm_api_secret.as_str()) == 0 || text::length(
        cfg.lastfm_password.as_str(),
    ) == 0 {
        return SessionStep::Refuse(
            text::copy(
                "favorites sync needs lastfmApiSecret + lastfmPassword (for the session key)",
            ),
        );
    }
    match net::circuit_since(attempt) {
        Some(last) => {
            let ago: i128 = (now as i128) - (last as i128);
            if ago < 300 {
                let mut s = text::copy("Last.fm auth throttled (retry in ~");
                s.append(text::format_int((300 - ago) as i64).as_str());
                s.append("s)");
                match error {
                    Some(e) => {
                        s.append(": ");
                        s.append(e.as_str());
                    },
                    None => {},
                }
                SessionStep::Refuse(s)
            } else {
                SessionStep::SignIn
            }
        },
        None => SessionStep::SignIn,
    }
}

/// The token that stands for user and password: a digest of the user and the password's digest.
pub open spec fn auth_token_of(user: Seq<char>, password: Seq<char>) -> Seq<char> {
    digest(user + digest(password))
}

/// The request for a session. The password itself is not sent.
pub fn sign_in(cfg: &Config) -> (r: Request)
    ensures
        r@ == signed_request(
            *cfg,
            Seq::empty(),
            "auth.getMobileSession"@,
            seq![
                ("username"@, cfg.lastfm_user@),
                ("authToken"@, auth_token_of(cfg.lastfm_user@, cfg.lastfm_password@)),
            ],
        ),
{
    let mut line = cfg.lastfm_user.clone();
    line.append(md5hex(cfg.lastfm_password.as_str().as_bytes()).as_str());
    let token = md5hex(line.as_str().as_bytes());
    let mut params = net::no_headers();
    net::put_header(&mut params, "username", cfg.lastfm_user.as_str());
    net::put_header(&mut params, "authToken", token.as_str());
    proof {
        reveal_strlit("");
        assert(organizer::pair_views(params@) =~= seq![
            ("username"@, cfg.lastfm_user@),
            ("authToken"@, auth_token_of(cfg.lastfm_user@, cfg.lastfm_password@)),
        ]);
        assert(""@ =~= Seq::<char>::empty());
    }
    lastfm_post(cfg, "", "auth.getMobileSession", params)
}

/// The session in an answer.
pub fn session_key(doc: &Option<Json>) -> (r: Option<String>)
    ensures
        text::view_opt(r) == json::string_of(
            json::member_opt(json::member_opt(json::doc_view(*doc), "session"@), "key"@),
        ),
{
    json::str_value(json::get_opt(json::get_opt(json::root(doc), "session"), "key"))
}

/// The request that loves a track.
pub fn love(cfg: &Config, session: &str, artist: &str, title: &str) -> (r: Request)
    ensures
        r@ == signed_request(
            *cfg,
            session@,
            "track.love"@,
            seq![("artist"@, artist@), ("track"@, title@)],
        ),
{
    let mut params = net::no_headers();
    net::put_header(&mut params, "artist", artist);
    net::put_header(&mut params, "track", title);
    assert(organizer::pair_views(params@) =~= seq![("artist"@, artist@), ("track"@, title@)]);
    lastfm_post(cfg, session, "track.love", params)
}

/// The request that tells Last.fm of a full listen.
pub fn scrobble(cfg: &Config, session: &str, artist: &str, title: &str, album: &str, ts: i64) -> (r:
    Request)
    ensures
        r@ == signed_request(
            *cfg,
            session@,
            "track.scrobble"@,
            seq![
                ("artist"@, artist@),
                ("track"@, title@),
                ("album"@, album@),
                ("timestamp"@, text::decimal_int(ts as int)),
            ],
        ),
{
    let mut params = net::no_headers();
    net::put_header(&mut params, "artist", artist);
    net::put_header(&mut params, "track", title);
    net::put_header(&mut params, "album", album);
    net::put_header(&mut params, "timestamp", text::format_int(ts).as_str());
    assert(organizer::pair_views(params@) =~= seq![
        ("artist"@, artist@),
        ("track"@, title@),
        ("album"@, album@),
        ("timestamp"@, text::decimal_int(ts as int)),
    ]);
    lastfm_post(cfg, session, "track.scrobble", params)
}

/// A call of the music server's interface in a user's name.
pub fn nav_uri(uri: &str, user: &str) -> (r: String)
    ensures
        r@ == uri@ + (if text::has(uri@, "?"@) {
            "&"@
        } else {
            "?"@
        }) + "u="@ + user@,
{
    let mut s = text::copy(uri);
    if text::contains(uri, "?") {
        s.append("&");
    } else {
        s.append("?");
    }
    s.append("u=");
    s.append(user);
    s
}

// ---------------------------------------------------------------------------
// ListenBrainz and Libre.fm

pub open spec fn token_headers(token: Seq<char>) -> Seq<(Seq<char>, Seq<char>)> {
    seq![("Authorization"@, "Token "@ + token), ("Content-Type"@, "application/json"@)]
}

fn token_header_list(token: &str) -> (r: Vec<(String, String)>)
    ensures
        organizer::pair_views(r@) == token_headers(token@),
{
    let mut headers = net::no_headers();
    net::put_header(&mut headers, "Authorization", text::join_two("Token ", token).as_str());
    net::put_header(&mut headers, "Content-Type", "application/json");
    assert(organizer::pair_views(headers@) =~= token_headers(token@));
    headers
}

/// What ListenBrainz is told of a listen.
pub open spec fn listen_tree(
    artist: Seq<char>,
    title: Seq<char>,
    album: Seq<char>,
    ts: int,
) -> JsonView {
    JsonView::Object(
        seq![
            ("listen_type"@, JsonView::Str("single"@)),
            (
                "payload"@,
                JsonView::Array(
                    seq![
                        JsonView::Object(
                            seq![
                                ("listened_at"@, JsonView::Int(ts)),
                                (
                                    "track_metadata"@,
                                    JsonView::Object(
                                        seq![
                                            ("artist_name"@, JsonView::Str(artist)),
                                            ("track_name"@, JsonView::Str(title)),
                                            ("release_name"@, JsonView::Str(album)),
                                        ],
                                    ),
                                ),
                            ],
                        ),
                    ],
                ),
            ),
        ],
    )
}

/// The request that tells ListenBrainz of a full listen; none without a token.
pub fn listenbrainz_scrobble(cfg: &Config, artist: &str, title: &str, album: &str, ts: i64) -> (r:
    Option<Request>)
    ensures
        match r {
            Some(q) => text::trimmed(cfg.musicbrainz_token@).len() > 0 && q@ == net::posting(
                "https://api.listenbrainz.org/1/submit-listens"@,
                token_headers(text::trimmed(cfg.musicbrainz_token@)),
                BodyView::Tree(listen_tree(artist@, title@, album@, ts as int)),
                15_000,
            ),
            None => text::trimmed(cfg.musicbrainz_token@).len() == 0,
        },
{
    let token = text::trim(cfg.musicbrainz_token.as_str());
    if text::length(token.as_str()) == 0 {
        return None;
    }
    let mut track: Vec<(String, Json)> = Vec::new();
    json::put(&mut track, "artist_name", json::string(artist));
    json::put(&mut track, "track_name", json::string(title));
    json::put(&mut track, "release_name", json::string(album));
    let mut listen: Vec<(String, Json)> = Vec::new();
    json::put(&mut listen, "listened_at", json::number(ts));
    let ghost inner = json::members(track@);
    json::put(&mut listen, "track_metadata", Json::Object(track));
    let mut payload: Vec<Json> = Vec::new();
    let ghost middle = json::members(listen@);
    json::append(&mut payload, Json::Object(listen));
    let mut body: Vec<(String, Json)> = Vec::new();
    json::put(&mut body, "listen_type", json::string("single"));
    let ghost list = json::trees(payload@);
    json::put(&mut body, "payload", Json::Array(payload));
    proof {
        assert(inner =~= seq![
            ("artist_name"@, JsonView::Str(artist@)),
            ("track_name"@, JsonView::Str(title@)),
            ("release_name"@, JsonView::Str(album@)),
        ]);
        assert(middle =~= seq![
            ("listened_at"@, JsonView::Int(ts as int)),
            ("track_metadata"@, JsonView::Object(inner)),
        ]);
        assert(list =~= seq![JsonView::Object(middle)]);
        assert(json::members(body@) =~= seq![
            ("listen_type"@, JsonView::Str("single"@)),
            ("payload"@, JsonView::Array(list)),
        ]);
    }
    Some(
        net::post(
            text::copy("https://api.listenbrainz.org/1/submit-listens"),
            token_header_list(token.as_str()),
            Body::Tree(Json::Object(body)),
            15_000,
        ),
    )
}

/// What is rated.
#[derive(Debug, Clone, Copy, PartialEq, Eq, Structural)]
pub enum Rated {
    Track,
    Album,
    Artist,
}

pub open spec fn rating_type(what: Rated) -> Seq<char> {
    match what {
        Rated::Track => "track"@,
        Rated::Album => "release-group"@,
        Rated::Artist => "artist"@,
    }
}

pub open spec fn rating_id_name(what: Rated) -> Seq<char> {
    match what {
        Rated::Track => "recording_mbid"@,
        Rated::Album => "release_group_mbid"@,
        Rated::Artist => "artist_mbid"@,
    }
}

/// What ListenBrainz is told of a rating: half-star steps make ten points each, of a hundred.
pub open spec fn rating_tree(what: Rated, mbid: Seq<char>, half_stars: int) -> JsonView {
    JsonView::Object(
        seq![
            (
                "rating"@,
                JsonView::Object(
                    seq![
                        ("rating_type"@, JsonView::Str(rating_type(what))),
                        ("rating_value"@, JsonView::Int(10 * half_stars)),
                        (rating_id_name(what), JsonView::Str(mbid)),
                    ],
                ),
            ),
        ],
    )
}

/// The request that rates something at ListenBrainz; none without a token or an id.
pub fn listenbrainz_rate(cfg: &Config, what: Rated, mbid: &str, half_stars: u8) -> (r: Option<
    Request,
>)
    ensures
        match r {
            Some(q) => text::trimmed(cfg.musicbrainz_token@).len() > 0 && mbid@.len() > 0 && q@
                == net::posting(
                "https://api.listenbrainz.org/1/rating"@,
                token_headers(text::trimmed(cfg.musicbrainz_token@)),
                BodyView::Tree(rating_tree(what, mbid@, half_stars as int)),
                15_000,
            ),
            None => text::trimmed(cfg.musicbrainz_token@).len() == 0 || mbid@.len() == 0,
        },
{
    let token = text::trim(cfg.musicbrainz_token.as_str());
    if text::length(token.as_str()) == 0 || text::length(mbid) == 0 {
        return None;
    }
    let kind = match what {
        Rated::Track => "track",
        Rated::Album => "release-group",
        Rated::Artist => "artist",
    };
    let id_name = match what {
        Rated::Track => "recording_mbid",
        Rated::Album => "release_group_mbid",
        Rated::Artist => "artist_mbid",
    };
    let mut rating: Vec<(String, Json)> = Vec::new();
    json::put(&mut rating, "rating_type", json::string(kind));
    json::put(&mut rating, "rating_value", json::number(10 * (half_stars as i64)));
    json::put(&mut rating, id_name, json::string(mbid));
    let ghost inner = json::members(rating@);
    let mut body: Vec<(String, Json)> = Vec::new();
    json::put(&mut body, "rating", Json::Object(rating));
    proof {
        assert(inner =~= seq![
            ("rating_type"@, JsonView::Str(rating_type(what))),
            ("rating_value"@, JsonView::Int(10 * half_stars as int)),
            (rating_id_name(what), JsonView::Str(mbid@)),
        ]);
        assert(json::members(body@) =~= seq![("rating"@, JsonView::Object(inner))]);
    }
    Some(
        net::post(
            text::copy("https://api.listenbrainz.org/1/rating"),
            token_header_list(token.as_str()),
            Body::Tree(Json::Object(body)),
            15_000,
        ),
    )
}

/// The address at which Libre.fm is told of a listen.
pub open spec fn librefm_url(
    user: Seq<char>,
    secret: Seq<char>,
    artist: Seq<char>,
    title: Seq<char>,
    album: Seq<char>,
    ts: int,
) -> Seq<char> {
    "https://libre.fm/rest/scrobble?s="@ + url::encoded(title) + "&u="@ + url::encoded(user)
        + "&v=1.13.0&c=nd-organizer&t="@ + text::decimal_int(ts) + "&a="@ + url::encoded(album)
        + "&ar="@ + url::encoded(artist) + "&sk="@ + url::encoded(secret) + "&fmt=json"@
}

/// The request that tells Libre.fm of a full listen; none without a user.
pub fn librefm_scrobble(cfg: &Config, artist: &str, title: &str, album: &str, ts: i64) -> (r:
    Option<Request>)
    ensures
        match r {
            Some(q) => text::trimmed(cfg.lastfm_user@).len() > 0 && q@ == net::asking(
                librefm_url(
                    text::trimmed(cfg.lastfm_user@),
                    text::trimmed(cfg.lastfm_api_secret@),
                    artist@,
                    title@,
                    album@,
                    ts as int,
                ),
                Seq::empty(),
                10_000,
            ),
            None => text::trimmed(cfg.lastfm_user@).len() == 0,
        },
{
    let user = text::trim(cfg.lastfm_user.as_str());
    let secret = text::trim(cfg.lastfm_api_secret.as_str());
    if text::length(user.as_str()) == 0 {
        return None;
    }
    let mut s = text::copy("https://libre.fm/rest/scrobble?s=");
    s.append(url::urlencode(title).as_str());
    s.append("&u=");
    s.append(url::urlencode(user.as_str()).as_str());
    s.append("&v=1.13.0&c=nd-organizer&t=");
    s.append(text::format_int(ts).as_str());
    s.append("&a=");
    s.append(url::urlencode(album).as_str());
    s.append("&ar=");
    s.append(url::urlencode(artist).as_str());
    s.append("&sk=");
    s.append(url::urlencode(secret.as_str()).as_str());
    s.append("&fmt=json");
    Some(net::ask(s, net::no_headers(), 10_000))
}

/// A signature covers neither itself nor the format.
pub proof fn signing_ignores_signature_and_format(
    secret: Seq<char>,
    params: Seq<(Seq<char>, Seq<char>)>,
    value: Seq<char>,
)
    ensures
        signature(secret, params.push(("format"@, value))) == signature(secret, params),
        signature(secret, params.push(("api_sig"@, value))) == signature(secret, params),
{
    assert(params.push(("format"@, value)).drop_last() == params);
    assert(params.push(("api_sig"@, value)).drop_last() == params);
}

} // verus!
