//! The state of the services around the organizer, and what is amiss with the settings.

use crate::config::{AcoustIdMode, Config, Mode};
use crate::json::{Json, JsonView};
use crate::net;
use crate::net::{Reply, ReplyView};
use crate::organizer;
use crate::posts;
use crate::text;
use vstd::prelude::*;

verus! {

// ---------------------------------------------------------------------------
// Probes

/// What is wrong with a service, by its answer to a probe. An answer that leads elsewhere still
/// shows that the service is up.
pub open spec fn trouble(reply: ReplyView) -> Option<Seq<char>> {
    match reply {
        ReplyView::Answer { status, body } => if status < 400 {
            None
        } else if status == 429 {
            Some("rate limited (HTTP "@ + text::decimal_int(status) + ")"@)
        } else {
            Some("unreachable or wrong credentials (HTTP "@ + text::decimal_int(status) + ")"@)
        },
        ReplyView::Silent => Some("no response"@),
        ReplyView::Failed { cause } => if text::has(cause, "EOF"@) {
            Some("transient (EOF, retrying)"@)
        } else {
            Some("connection failed: "@ + cause)
        },
    }
}

/// What a probe finds wrong.
pub fn probe_trouble(reply: &Reply) -> (r: Option<String>)
    ensures
        text::view_opt(r) == trouble(reply@),
{
    match reply {
        Reply::Answer { status, body } => if *status < 400 {
            None
        } else {
            let mut s = if *status == 429 {
                text::copy("rate limited (HTTP ")
            } else {
                text::copy("unreachable or wrong credentials (HTTP ")
            };
            s.append(text::format_int(*status as i64).as_str());
            s.append(")");
            Some(s)
        },
        Reply::Silent => Some(text::copy("no response")),
        Reply::Failed { cause } => if text::contains(cause.as_str(), "EOF") {
            Some(text::copy("transient (EOF, retrying)"))
        } else {
            Some(text::join_two("connection failed: ", cause.as_str()))
        },
    }
}

/// The key under which the result of a probe is kept.
pub fn probe_key(key: &str, address: &str) -> (r: String)
    ensures
        r@ == "probe:"@ + key@ + ":"@ + address@,
{
    let mut s = text::copy("probe:");
    s.append(key);
    s.append(":");
    s.append(address);
    s
}

/// What is kept of a probe, and for how many seconds: trouble only for half a minute.
pub fn probe_kept(found: &Option<String>, ttl: i64) -> (r: (String, i64))
    ensures
        r.0@ == match text::view_opt(*found) {
            Some(w) => "warn:"@ + w,
            None => "ok"@,
        },
        r.1 == if found is Some {
            30
        } else {
            ttl
        },
{
    match found {
        Some(w) => (text::join_two("warn:", w.as_str()), 30),
        None => (text::copy("ok"), ttl),
    }
}

/// What a kept result says.
pub fn probe_recalled(stored: &str) -> (r: Option<String>)
    ensures
        text::view_opt(r) == if stored@ == "ok"@ {
            None
        } else {
            Some(stored@)
        },
{
    if text::same(stored, "ok") {
        None
    } else {
        Some(text::copy(stored))
    }
}

/// The warning about a service.
pub fn probe_ok(key: &str, found: &Option<String>) -> (r: Option<String>)
    ensures
        text::view_opt(r) == match text::view_opt(*found) {
            Some(w) => Some(key@ + ": "@ + w),
            None => None,
        },
{
    match found {
        Some(w) => {
            let mut s = text::copy(key);
            s.append(": ");
            s.append(w.as_str());
            Some(s)
        },
        None => None,
    }
}

// ---------------------------------------------------------------------------
// Services

/// How the state of a service is found.
#[derive(Debug)]
pub enum Check {
    /// It is not set up.
    Missing { detail: String },
    /// It is probed; what is said where all is well comes along.
    Probe {
        key: String,
        address: String,
        headers: Vec<(String, String)>,
        timeout_ms: i32,
        ttl: i64,
        fine: String,
    },
    /// Its login is tried.
    Login { fine: String },
}

#[verifier::ext_equal]
pub enum CheckView {
    Missing { detail: Seq<char> },
    Probe {
        key: Seq<char>,
        address: Seq<char>,
        headers: Seq<(Seq<char>, Seq<char>)>,
        timeout_ms: int,
        ttl: int,
        fine: Seq<char>,
    },
    Login { fine: Seq<char> },
}

impl View for Check {
    type V = CheckView;

    open spec fn view(&self) -> CheckView {
        match self {
            Check::Missing { detail } => CheckView::Missing { detail: detail@ },
            Check::Probe { key, address, headers, timeout_ms, ttl, fine } => CheckView::Probe {
                key: key@,
                address: address@,
                headers: organizer::pair_views(headers@),
                timeout_ms: *timeout_ms as int,
                ttl: *ttl as int,
                fine: fine@,
            },
            Check::Login { fine } => CheckView::Login { fine: fine@ },
        }
    }
}

/// A service and how its state is found.
#[derive(Debug)]
pub struct Service {
    pub name: String,
    pub check: Check,
}

pub open spec fn service_views(v: Seq<Service>) -> Seq<(Seq<char>, CheckView)> {
    v.map_values(|s: Service| (s.name@, s.check@))
}

pub open spec fn no_headers() -> Seq<(Seq<char>, Seq<char>)> {
    Seq::empty()
}

pub open spec fn agent() -> Seq<(Seq<char>, Seq<char>)> {
    seq![("User-Agent"@, "nd-organizer/0.2.0 (https://github.com/Lunatixz/nd-organizer)"@)]
}

fn make_agent() -> (r: Vec<(String, String)>)
    ensures
        organizer::pair_views(r@) == agent(),
{
    let mut h = net::no_headers();
    net::put_header(
        &mut h,
        "User-Agent",
        "nd-organizer/0.2.0 (https://github.com/Lunatixz/nd-organizer)",
    );
    assert(organizer::pair_views(h@) =~= agent());
    h
}

/// The header for Lidarr, where its key is set.
pub open spec fn lidarr_header(cfg: Config) -> Seq<(Seq<char>, Seq<char>)> {
    if text::said(cfg.lidarr_api_key@) {
        seq![("X-Api-Key"@, cfg.lidarr_api_key@)]
    } else {
        Seq::empty()
    }
}

/// The header with which Lidarr is probed.
pub fn make_lidarr_header(cfg: &Config) -> (r: Vec<(String, String)>)
    ensures
        organizer::pair_views(r@) == lidarr_header(*cfg),
{
    let mut h = net::no_headers();
    if text::is_said(cfg.lidarr_api_key.as_str()) {
        net::put_header(&mut h, "X-Api-Key", cfg.lidarr_api_key.as_str());
    }
    assert(organizer::pair_views(h@) =~= lidarr_header(*cfg));
    h
}

pub open spec fn probing(
    key: Seq<char>,
    address: Seq<char>,
    headers: Seq<(Seq<char>, Seq<char>)>,
    timeout_ms: int,
    ttl: int,
    fine: Seq<char>,
) -> CheckView {
    CheckView::Probe { key, address, headers, timeout_ms, ttl, fine }
}

fn probe(
    key: &str,
    address: String,
    headers: Vec<(String, String)>,
    timeout_ms: i32,
    ttl: i64,
    fine: String,
) -> (r: Check)
    ensures
        r@ == probing(
            key@,
            address@,
            organizer::pair_views(headers@),
            timeout_ms as int,
            ttl as int,
            fine@,
        ),
{
    Check::Probe { key: text::copy(key), address, headers, timeout_ms, ttl, fine }
}

fn missing(detail: &str) -> (r: Check)
    ensures
        r@ == (CheckView::Missing { detail: detail@ }),
{
    Check::Missing { detail: text::copy(detail) }
}

/// The fingerprinter of files.
pub open spec fn acoustid_check(cfg: Config) -> CheckView {
    let address = text::strip_back(cfg.acoustid_url@, text::among("/"@)) + "/health"@;
    if text::said(cfg.acoustid_url@) {
        probing("acoustid"@, address, no_headers(), 5_000, 60, address)
    } else {
        CheckView::Missing { detail: "acoustidUrl not set"@ }
    }
}

fn check_acoustid(cfg: &Config) -> (r: Check)
    ensures
        r@ == acoustid_check(*cfg),
{
    if !text::is_said(cfg.acoustid_url.as_str()) {
        return missing("acoustidUrl not set");
    }
    let address = text::join_two(
        text::trim_back(cfg.acoustid_url.as_str(), "/").as_str(),
        "/health",
    );
    let fine = address.clone();
    probe("acoustid", address, net::no_headers(), 5_000, 60, fine)
}

/// Lidarr, at the address that was found for it.
pub open spec fn lidarr_check(cfg: Config, base: Seq<char>) -> CheckView {
    let address = base + "/api/v1/system/status"@;
    if text::said(cfg.lidarr_url@) {
        probing("lidarr"@, address, lidarr_header(cfg), 5_000, 60, address)
    } else {
        CheckView::Missing { detail: "lidarrUrl not set"@ }
    }
}

fn check_lidarr(cfg: &Config, base: &str) -> (r: Check)
    ensures
        r@ == lidarr_check(*cfg, base@),
{
    if !text::is_said(cfg.lidarr_url.as_str()) {
        return missing("lidarrUrl not set");
    }
    let address = text::join_two(base, "/api/v1/system/status");
    let fine = address.clone();
    probe("lidarr", address, make_lidarr_header(cfg), 5_000, 60, fine)
}

/// AudioMuse-AI, at the address that was found for it.
pub open spec fn audiomuse_check(cfg: Config, base: Seq<char>) -> CheckView {
    if text::said(cfg.audiomuse_url@) {
        probing("audiomuse-v2"@, base, no_headers(), 20_000, 60, base)
    } else {
        CheckView::Missing { detail: "audiomuseUrl not set"@ }
    }
}

fn check_audiomuse(cfg: &Config, base: &str) -> (r: Check)
    ensures
        r@ == audiomuse_check(*cfg, base@),
{
    if !text::is_said(cfg.audiomuse_url.as_str()) {
        return missing("audiomuseUrl not set");
    }
    probe("audiomuse-v2", text::copy(base), net::no_headers(), 20_000, 60, text::copy(base))
}

pub open spec fn musicbrainz_check(cfg: Config) -> CheckView {
    probing(
        "musicbrainz-hc"@,
        "https://musicbrainz.org/ws/2/artist/?query=beatles&limit=1"@,
        agent(),
        15_000,
        30,
        if text::said(cfg.musicbrainz_token@) {
            "token set"@
        } else {
            "no token (optional, 1 req/s)"@
        },
    )
}

fn check_musicbrainz(cfg: &Config) -> (r: Check)
    ensures
        r@ == musicbrainz_check(*cfg),
{
    let fine = if text::is_said(cfg.musicbrainz_token.as_str()) {
        text::copy("token set")
    } else {
        text::copy("no token (optional, 1 req/s)")
    };
    probe(
        "musicbrainz-hc",
        text::copy("https://musicbrainz.org/ws/2/artist/?query=beatles&limit=1"),
        make_agent(),
        15_000,
        30,
        fine,
    )
}

pub open spec fn listenbrainz_check(cfg: Config) -> CheckView {
    if text::said(cfg.musicbrainz_token@) {
        probing(
            "listenbrainz"@,
            "https://api.listenbrainz.org/1/"@,
            agent(),
            10_000,
            30,
            "token set, api reachable"@,
        )
    } else {
        CheckView::Missing { detail: "set musicbrainzToken"@ }
    }
}

fn check_listenbrainz(cfg: &Config) -> (r: Check)
    ensures
        r@ == listenbrainz_check(*cfg),
{
    if !text::is_said(cfg.musicbrainz_token.as_str()) {
        return missing("set musicbrainzToken");
    }
    probe(
        "listenbrainz",
        text::copy("https://api.listenbrainz.org/1/"),
        make_agent(),
        10_000,
        30,
        text::copy("token set, api reachable"),
    )
}

/// Whether the login at Last.fm can be tried.
pub open spec fn logs_in(cfg: Config) -> bool {
    cfg.favorites_sync_lastfm && text::said(cfg.lastfm_api_secret@) && text::said(cfg.lastfm_password@)
}

/// Whether the login at Last.fm is tried.
pub fn tries_login(cfg: &Config) -> (r: bool)
    ensures
        r == logs_in(*cfg),
{
    cfg.favorites_sync_lastfm && text::is_said(cfg.lastfm_api_secret.as_str()) && text::is_said(
        cfg.lastfm_password.as_str(),
    )
}

/// What is wrong with the login at Last.fm, from what it came to.
pub fn lastfm_auth_issue(cfg: &Config, failure: &Option<String>) -> (r: Option<String>)
    ensures
        text::view_opt(r) == match text::view_opt(*failure) {
            Some(e) => if logs_in(*cfg) {
                Some("auth failed: "@ + e)
            } else {
                None
            },
            None => None,
        },
{
    match failure {
        Some(e) => if tries_login(cfg) {
            Some(text::join_two("auth failed: ", e.as_str()))
        } else {
            None
        },
        None => None,
    }
}

pub open spec fn lastfm_check(cfg: Config) -> CheckView {
    if !text::said(cfg.lastfm_api_key@) || !text::said(cfg.lastfm_user@) {
        CheckView::Missing { detail: "set lastfmApiKey + lastfmUser"@ }
    } else if logs_in(cfg) {
        CheckView::Login { fine: "auth ok (favorites)"@ }
    } else {
        probing(
            "lastfm"@,
            "https://ws.audioscrobbler.com/2.0/?method=user.getinfo&user="@ + cfg.lastfm_user@
                + "&api_key="@ + cfg.lastfm_api_key@ + "&format=json"@,
            no_headers(),
            5_000,
            60,
            "api reachable"@,
        )
    }
}

fn check_lastfm(cfg: &Config) -> (r: Check)
    ensures
        r@ == lastfm_check(*cfg),
{
    if !text::is_said(cfg.lastfm_api_key.as_str()) || !text::is_said(cfg.lastfm_user.as_str()) {
        return missing("set lastfmApiKey + lastfmUser");
    }
    if tries_login(cfg) {
        return Check::Login { fine: text::copy("auth ok (favorites)") };
    }
    let mut address = text::copy("https://ws.audioscrobbler.com/2.0/?method=user.getinfo&user=");
    address.append(cfg.lastfm_user.as_str());
    address.append("&api_key=");
    address.append(cfg.lastfm_api_key.as_str());
    address.append("&format=json");
    probe("lastfm", address, net::no_headers(), 5_000, 60, text::copy("api reachable"))
}

/// A container of the organizer's own, by its name and port.
pub open spec fn container_check(container: Seq<char>, port: int) -> CheckView {
    probing(
        container,
        "http://"@ + container + ":"@ + text::decimal_int(port) + "/health"@,
        no_headers(),
        5_000,
        60,
        "port "@ + text::decimal_int(port),
    )
}

fn check_container(container: &str, port: i64) -> (r: Check)
    ensures
        r@ == container_check(container@, port as int),
{
    let number = text::format_int(port);
    let mut address = text::copy("http://");
    address.append(container);
    address.append(":");
    address.append(number.as_str());
    address.append("/health");
    probe(
        container,
        address,
        net::no_headers(),
        5_000,
        60,
        text::join_two("port ", number.as_str()),
    )
}

/// Every service, in the order in which they are shown.
pub open spec fn services(cfg: Config, lidarr: Seq<char>, audiomuse: Seq<char>) -> Seq<
    (Seq<char>, CheckView),
> {
    seq![
        ("AcoustID"@, acoustid_check(cfg)),
        ("Lidarr"@, lidarr_check(cfg, lidarr)),
        ("AudioMuse-AI"@, audiomuse_check(cfg, audiomuse)),
        ("MusicBrainz"@, musicbrainz_check(cfg)),
        ("ListenBrainz"@, listenbrainz_check(cfg)),
        ("Last.fm"@, lastfm_check(cfg)),
        ("Filter Proxy"@, container_check("nd-organizer-proxy"@, 4534)),
        ("MySQL"@, container_check("nd-organizer-mysql"@, 8098)),
        ("Radio"@, container_check("nd-organizer-radio"@, 8100)),
        ("Essentia"@, container_check("nd-organizer-essentia"@, 8101)),
    ]
}

fn push_service(list: &mut Vec<Service>, name: &str, check: Check)
    ensures
        service_views(final(list)@) == service_views(old(list)@).push((name@, check@)),
{
    let ghost before = list@;
    let ghost shown = (name@, check@);
    list.push(Service { name: text::copy(name), check });
    assert(service_views(list@) =~= service_views(before).push(shown));
}

/// The services and how their state is found, given the addresses at which Lidarr and
/// AudioMuse-AI are reached.
pub fn integration_health(cfg: &Config, lidarr_base: &str, audiomuse_base: &str) -> (r: Vec<Service>)
    ensures
        service_views(r@) == services(*cfg, lidarr_base@, audiomuse_base@),
{
    let mut out: Vec<Service> = Vec::new();
    push_service(&mut out, "AcoustID", check_acoustid(cfg));
    push_service(&mut out, "Lidarr", check_lidarr(cfg, lidarr_base));
    push_service(&mut out, "AudioMuse-AI", check_audiomuse(cfg, audiomuse_base));
    push_service(&mut out, "MusicBrainz", check_musicbrainz(cfg));
    push_service(&mut out, "ListenBrainz", check_listenbrainz(cfg));
    push_service(&mut out, "Last.fm", check_lastfm(cfg));
    push_service(&mut out, "Filter Proxy", check_container("nd-organizer-proxy", 4534));
    push_service(&mut out, "MySQL", check_container("nd-organizer-mysql", 8098));
    push_service(&mut out, "Radio", check_container("nd-organizer-radio", 8100));
    push_service(&mut out, "Essentia", check_container("nd-organizer-essentia", 8101));
    assert(service_views(out@) =~= services(*cfg, lidarr_base@, audiomuse_base@));
    out
}

/// The word for the state of a service, and the detail, given what its check found.
pub open spec fn state_of(name: Seq<char>, check: CheckView, found: Option<Seq<char>>) -> (
    Seq<char>,
    Seq<char>,
) {
    match check {
        CheckView::Missing { detail } => ("notConfigured"@, detail),
        CheckView::Login { fine } => match found {
            Some(w) => ("authFailed"@, w),
            None => ("ok"@, fine),
        },
        CheckView::Probe { key, address, headers, timeout_ms, ttl, fine } => match found {
            Some(w) => if name == "Lidarr"@ && (text::has(w, "HTTP 401"@) || text::has(
                w,
                "HTTP 403"@,
            )) {
                ("reachable"@, w)
            } else {
                ("unreachable"@, w)
            },
            None => ("ok"@, fine),
        },
    }
}

/// A service as it is shown.
pub open spec fn shown_state(name: Seq<char>, check: CheckView, found: Option<Seq<char>>) -> JsonView {
    posts::health_doc(name, state_of(name, check, found).0, state_of(name, check, found).1)
}

/// The entry of a service, given what its check found wrong.
pub fn health_entry(service: &Service, found: &Option<String>) -> (r: Json)
    ensures
        r@ == shown_state(service.name@, service.check@, text::view_opt(*found)),
{
    let name = service.name.as_str();
    match &service.check {
        Check::Missing { detail } => posts::health_entry(name, "notConfigured", detail.as_str()),
        Check::Login { fine } => match found {
            Some(w) => posts::health_entry(name, "authFailed", w.as_str()),
            None => posts::health_entry(name, "ok", fine.as_str()),
        },
        Check::Probe { key, address, headers, timeout_ms, ttl, fine } => match found {
            Some(w) => if text::same(name, "Lidarr") && (text::contains(w.as_str(), "HTTP 401")
                || text::contains(w.as_str(), "HTTP 403")) {
                posts::health_entry(name, "reachable", w.as_str())
            } else {
                posts::health_entry(name, "unreachable", w.as_str())
            },
            None => posts::health_entry(name, "ok", fine.as_str()),
        },
    }
}

// ---------------------------------------------------------------------------
// Warnings

/// What is known besides the settings.
#[derive(Debug)]
pub struct Facts {
    /// At least one library can be reached.
    pub has_libraries: bool,
    /// The libraries that cannot be written, with their names.
    pub read_only: Vec<(i32, String)>,
    /// What is wrong with the login at Last.fm.
    pub auth_issue: Option<String>,
    /// There is a user to act for.
    pub has_user: bool,
    /// What a probe of Lidarr found, where one was made.
    pub lidarr: Option<String>,
    /// What a probe of AudioMuse-AI found, where one was made.
    pub audiomuse: Option<String>,
}

/// The list with a text at its end, where it applies.
pub open spec fn with_if(list: Seq<Seq<char>>, applies: bool, s: Seq<char>) -> Seq<Seq<char>> {
    if applies {
        list.push(s)
    } else {
        list
    }
}

pub open spec fn read_only_line(lib: (i32, String)) -> Seq<char> {
    "library "@ + text::decimal_int(lib.0 as int) + " \""@ + lib.1@
        + "\" is READ-ONLY - grant write access via: navidrome plugin edit nd-organizer --write-access"@
}

pub open spec fn read_only_lines(libs: Seq<(i32, String)>) -> Seq<Seq<char>> {
    libs.map_values(|l: (i32, String)| read_only_line(l))
}

/// Last.fm is asked for plays, and cannot be.
pub open spec fn lacks_session(cfg: Config) -> bool {
    (cfg.lastfm_scrobble || cfg.lastfm_import_playcount) && (!text::said(cfg.lastfm_api_key@) || !text::said(
        cfg.lastfm_api_secret@,
    ) || !text::said(cfg.lastfm_password@))
}

/// The warnings about libraries.
pub open spec fn library_warnings(cfg: Config, facts: Facts) -> Seq<Seq<char>> {
    with_if(
        Seq::empty(),
        !facts.has_libraries,
        "no libraries are accessible - grant Library Access in the plugin permissions"@,
    ) + (if cfg.mode == Mode::Apply {
        read_only_lines(facts.read_only@)
    } else {
        Seq::empty()
    })
}

/// The warnings about identity and plays.
pub open spec fn listening_warnings(list: Seq<Seq<char>>, cfg: Config) -> Seq<Seq<char>> {
    let a = with_if(
        list,
        cfg.acoustid_mode != AcoustIdMode::Disabled && !text::said(cfg.acoustid_api_key@),
        "acoustidApiKey is empty but acoustidMode is enabled"@,
    );
    let b = with_if(
        a,
        cfg.verify_identity && !text::said(cfg.acoustid_url@),
        "verifyIdentity is on but acoustidUrl is empty - files without an MBID/ISRC cannot be verified and will be routed to Singles. Deploy the AcoustID sidecar (acoustid/) and set its URL."@,
    );
    let c = with_if(
        b,
        cfg.write_playcount && (!text::said(cfg.lastfm_api_key@) || !text::said(cfg.lastfm_user@)),
        "writePlaycount requires lastfmApiKey and lastfmUser"@,
    );
    with_if(
        c,
        lacks_session(cfg),
        "lastfmScrobble / lastfmImportPlaycount need lastfmApiKey + lastfmApiSecret + lastfmPassword (Last.fm session)"@,
    )
}

/// The warnings about favorites.
pub open spec fn favorites_warnings(list: Seq<Seq<char>>, cfg: Config, facts: Facts) -> Seq<
    Seq<char>,
> {
    if !cfg.favorites_sync_lastfm {
        list
    } else {
        let a = if !text::said(cfg.lastfm_api_secret@) || !text::said(cfg.lastfm_password@) {
            list.push(
                "favorites sync (Last.fm) is on but needs lastfmApiSecret + lastfmPassword (for the session key)"@,
            )
        } else {
            match text::view_opt(facts.auth_issue) {
                Some(issue) => list.push(
                    "favorites sync (Last.fm) cannot log in: "@ + issue
                        + ". Check lastfmPassword (and lastfmApiSecret)."@,
                ),
                None => list,
            }
        };
        with_if(
            a,
            !facts.has_user,
            "favorites sync needs a Navidrome user (grant one in User Access, or set scanUser)"@,
        )
    }
}

/// The warnings about names, scans and services.
pub open spec fn service_warnings(list: Seq<Seq<char>>, cfg: Config, facts: Facts) -> Seq<Seq<char>> {
    let a = with_if(
        list,
        cfg.genre_from@ == "lastfm"@ && !text::said(cfg.lastfm_api_key@),
        "genreFrom is lastfm but lastfmApiKey is empty"@,
    );
    let b = with_if(
        a,
        cfg.use_lidarr_naming_schema && (!text::said(cfg.lidarr_url@) || !text::said(cfg.lidarr_api_key@)),
        "useLidarrNamingSchema is on but Lidarr URL/API key are not configured"@,
    );
    let c = with_if(
        b,
        cfg.trigger_scan_after_run && !facts.has_user,
        "triggerScanAfterRun is on but no Navidrome user is available (grant one in User Access, or set scanUser)"@,
    );
    let d = match text::view_opt(facts.lidarr) {
        Some(w) => with_if(
            c,
            text::said(cfg.lidarr_url@),
            "Lidarr: "@ + w
                + ". If Lidarr runs in a Docker container, set lidarrUrl to its container name on the same network (e.g. http://lidarr:8686)."@,
        ),
        None => c,
    };
    match text::view_opt(facts.audiomuse) {
        Some(w) => with_if(
            d,
            text::said(cfg.audiomuse_url@),
            "AudioMuse-AI: "@ + w
                + ". If AudioMuse-AI runs in a Docker container, set audiomuseUrl to its container name on the same network (e.g. http://audiomuse-ai-flask-app:8000)."@,
        ),
        None => d,
    }
}

/// Everything that is amiss.
pub open spec fn warnings_of(cfg: Config, facts: Facts) -> Seq<Seq<char>> {
    service_warnings(
        favorites_warnings(listening_warnings(library_warnings(cfg, facts), cfg), cfg, facts),
        cfg,
        facts,
    )
}

fn push_if(list: &mut Vec<String>, applies: bool, s: &str)
    ensures
        text::views(final(list)@) == with_if(text::views(old(list)@), applies, s@),
{
    if applies {
        let c = text::copy(s);
        proof {
            text::views_push(list@, c);
        }
        list.push(c);
    }
}

fn push_read_only(list: &mut Vec<String>, libs: &Vec<(i32, String)>)
    ensures
        text::views(final(list)@) == text::views(old(list)@) + read_only_lines(libs@),
{
    let ghost start = text::views(list@);
    let ghost all = read_only_lines(libs@);
    let mut i: usize = 0;
    assert(start + all.take(0) =~= start);
    while i < libs.len()
        invariant
            i <= libs@.len(),
            all == read_only_lines(libs@),
            text::views(list@) == start + all.take(i as int),
        decreases libs@.len() - i,
    {
        let mut line = text::copy("library ");
        line.append(text::format_int(libs[i].0 as i64).as_str());
        line.append(" \"");
        line.append(libs[i].1.as_str());
        line.append(
            "\" is READ-ONLY - grant write access via: navidrome plugin edit nd-organizer --write-access",
        );
        proof {
            text::views_push(list@, line);
            assert(all[i as int] == line@);
            assert((start + all.take(i as int)).push(line@) =~= start + all.take(i + 1));
        }
        list.push(line);
        i = i + 1;
    }
    assert(all.take(i as int) =~= all);
}

fn warn_listening(w: &mut Vec<String>, cfg: &Config)
    ensures
        text::views(final(w)@) == listening_warnings(text::views(old(w)@), *cfg),
{
    push_if(
        w,
        cfg.acoustid_mode != AcoustIdMode::Disabled && !text::is_said(cfg.acoustid_api_key.as_str()),
        "acoustidApiKey is empty but acoustidMode is enabled",
    );
    push_if(
        w,
        cfg.verify_identity && !text::is_said(cfg.acoustid_url.as_str()),
        "verifyIdentity is on but acoustidUrl is empty - files without an MBID/ISRC cannot be verified and will be routed to Singles. Deploy the AcoustID sidecar (acoustid/) and set its URL.",
    );
    push_if(
        w,
        cfg.write_playcount && (!text::is_said(cfg.lastfm_api_key.as_str()) || !text::is_said(
            cfg.lastfm_user.as_str(),
        )),
        "writePlaycount requires lastfmApiKey and lastfmUser",
    );
    push_if(
        w,
        (cfg.lastfm_scrobble || cfg.lastfm_import_playcount) && (!text::is_said(
            cfg.lastfm_api_key.as_str(),
        ) || !text::is_said(cfg.lastfm_api_secret.as_str()) || !text::is_said(cfg.lastfm_password.as_str())),
        "lastfmScrobble / lastfmImportPlaycount need lastfmApiKey + lastfmApiSecret + lastfmPassword (Last.fm session)",
    );
}

fn warn_favorites(w: &mut Vec<String>, cfg: &Config, facts: &Facts)
    ensures
        text::views(final(w)@) == favorites_warnings(text::views(old(w)@), *cfg, *facts),
{
    if !cfg.favorites_sync_lastfm {
        return;
    }
    if !text::is_said(cfg.lastfm_api_secret.as_str()) || !text::is_said(cfg.lastfm_password.as_str()) {
        push_if(
            w,
            true,
            "favorites sync (Last.fm) is on but needs lastfmApiSecret + lastfmPassword (for the session key)",
        );
    } else {
        match &facts.auth_issue {
            Some(issue) => {
                let mut s = text::copy("favorites sync (Last.fm) cannot log in: ");
                s.append(issue.as_str());
                s.append(". Check lastfmPassword (and lastfmApiSecret).");
                push_if(w, true, s.as_str());
            },
            None => {},
        }
    }
    push_if(
        w,
        !facts.has_user,
        "favorites sync needs a Navidrome user (grant one in User Access, or set scanUser)",
    );
}

fn warn_services(w: &mut Vec<String>, cfg: &Config, facts: &Facts)
    ensures
        text::views(final(w)@) == service_warnings(text::views(old(w)@), *cfg, *facts),
{
    push_if(
        w,
        text::same(cfg.genre_from.as_str(), "lastfm") && !text::is_said(cfg.lastfm_api_key.as_str()),
        "genreFrom is lastfm but lastfmApiKey is empty",
    );
    push_if(
        w,
        cfg.use_lidarr_naming_schema && (!text::is_said(cfg.lidarr_url.as_str()) || !text::is_said(
            cfg.lidarr_api_key.as_str(),
        )),
        "useLidarrNamingSchema is on but Lidarr URL/API key are not configured",
    );
    push_if(
        w,
        cfg.trigger_scan_after_run && !facts.has_user,
        "triggerScanAfterRun is on but no Navidrome user is available (grant one in User Access, or set scanUser)",
    );
    match &facts.lidarr {
        Some(found) => {
            let mut s = text::copy("Lidarr: ");
            s.append(found.as_str());
            s.append(
                ". If Lidarr runs in a Docker container, set lidarrUrl to its container name on the same network (e.g. http://lidarr:8686).",
            );
            push_if(w, text::is_said(cfg.lidarr_url.as_str()), s.as_str());
        },
        None => {},
    }
    match &facts.audiomuse {
        Some(found) => {
            let mut s = text::copy("AudioMuse-AI: ");
            s.append(found.as_str());
            s.append(
                ". If AudioMuse-AI runs in a Docker container, set audiomuseUrl to its container name on the same network (e.g. http://audiomuse-ai-flask-app:8000).",
            );
            push_if(w, text::is_said(cfg.audiomuse_url.as_str()), s.as_str());
        },
        None => {},
    }
}

/// Everything that is amiss with the settings and the services, in words.
pub fn collect_warnings(cfg: &Config, facts: &Facts) -> (r: Vec<String>)
    ensures
        text::views(r@) == warnings_of(*cfg, *facts),
{
    let mut w: Vec<String> = Vec::new();
    assert(text::views(w@) =~= Seq::<Seq<char>>::empty());
    push_if(
        &mut w,
        !facts.has_libraries,
        "no libraries are accessible - grant Library Access in the plugin permissions",
    );
    if cfg.mode == Mode::Apply {
        push_read_only(&mut w, &facts.read_only);
    }
    assert(text::views(w@) =~= library_warnings(*cfg, *facts));
    warn_listening(&mut w, cfg);
    warn_favorites(&mut w, cfg, facts);
    warn_services(&mut w, cfg, facts);
    w
}

} // verus!
