//! Addresses of services, and where else a service may be reached.

use crate::text;
use vstd::prelude::*;

verus! {

/// What stands before the first of the given characters.
pub open spec fn before_any(s: Seq<char>, set: Seq<char>) -> Seq<char> {
    text::split_by(s, text::among(set))[0]
}

fn cut_before(s: &str, set: &str) -> (r: String)
    ensures
        r@ == before_any(s@, set@),
{
    proof {
        text::split_by_nonempty(s@, text::among(set@));
    }
    let parts = text::split(s, set);
    assert(text::views(parts@)[0] == parts@[0]@);
    parts[0].clone()
}

/// The host that a base URL names, without its port.
pub open spec fn host_in(baseurl: Seq<char>) -> Option<Seq<char>> {
    match text::found(baseurl, "://"@) {
        Some(i) => {
            let place = text::trimmed(before_any(baseurl.skip(i + 3), "/?"@));
            let host = text::trimmed(before_any(place, ":"@));
            if host.len() == 0 {
                None
            } else {
                Some(host)
            }
        },
        None => None,
    }
}

/// The host of a base URL; the caller adds the port of the service it wants.
pub fn host_of_baseurl(baseurl: &str) -> (r: Option<String>)
    ensures
        text::view_opt(r) == host_in(baseurl@),
{
    proof {
        text::find_from_meaning(baseurl@, "://"@, 0);
        reveal_strlit("://");
    }
    match text::find(baseurl, "://") {
        Some(i) => {
            let len: usize = text::length(baseurl);
            let rest = text::slice(baseurl, i + 3, len);
            assert(rest@ =~= baseurl@.skip(i + 3));
            let place = text::trim(cut_before(rest.as_str(), "/?").as_str());
            let host = text::trim(cut_before(place.as_str(), ":").as_str());
            if text::length(host.as_str()) == 0 {
                None
            } else {
                Some(host)
            }
        },
        None => None,
    }
}

/// The parts of a URL: scheme with its slashes, authority, path.
pub open spec fn parts(url: Seq<char>) -> Option<(Seq<char>, Seq<char>, Seq<char>)> {
    match text::found(url, "://"@) {
        Some(i) => {
            let rest = url.skip(i + 3);
            let at = match text::found(rest, "/"@) {
                Some(j) => j,
                None => rest.len() as int,
            };
            Some((url.take(i + 3), rest.take(at), rest.skip(at)))
        },
        None => None,
    }
}

pub open spec fn parts_view(p: Option<(String, String, String)>) -> Option<
    (Seq<char>, Seq<char>, Seq<char>),
> {
    match p {
        Some(t) => Some((t.0@, t.1@, t.2@)),
        None => None,
    }
}

fn parts_of(url: &str) -> (r: Option<(String, String, String)>)
    ensures
        parts_view(r) == parts(url@),
{
    proof {
        text::find_from_meaning(url@, "://"@, 0);
        reveal_strlit("://");
        reveal_strlit("/");
    }
    match text::find(url, "://") {
        Some(i) => {
            let len: usize = text::length(url);
            let rest = text::slice(url, i + 3, len);
            let n: usize = text::length(rest.as_str());
            proof {
                assert(rest@ =~= url@.skip(i + 3));
                text::find_from_meaning(rest@, "/"@, 0);
            }
            let at: usize = match text::find(rest.as_str(), "/") {
                Some(j) => j,
                None => n,
            };
            let scheme = text::slice(url, 0, i + 3);
            let authority = text::slice(rest.as_str(), 0, at);
            let path = text::slice(rest.as_str(), at, n);
            proof {
                assert(scheme@ =~= url@.take(i + 3));
                assert(authority@ =~= rest@.take(at as int));
                assert(path@ =~= rest@.skip(at as int));
            }
            Some((scheme, authority, path))
        },
        None => None,
    }
}

/// What stands before and after the last colon.
pub open spec fn around_colon(s: Seq<char>) -> Option<(Seq<char>, Seq<char>)> {
    match text::found_last(s, ":"@) {
        Some(i) => Some((s.take(i), s.skip(i + 1))),
        None => None,
    }
}

fn split_colon(s: &str) -> (r: Option<(String, String)>)
    ensures
        match r {
            Some(p) => around_colon(s@) == Some((p.0@, p.1@)),
            None => around_colon(s@) is None,
        },
{
    proof {
        text::find_back_meaning(s@, ":"@, s@.len() as int);
        reveal_strlit(":");
    }
    match text::find_last(s, ":") {
        Some(i) => {
            let n: usize = text::length(s);
            let a = text::slice(s, 0, i);
            let b = text::slice(s, i + 1, n);
            proof {
                assert(a@ =~= s@.take(i as int));
                assert(b@ =~= s@.skip(i + 1));
            }
            Some((a, b))
        },
        None => None,
    }
}

fn are_digits(s: &str) -> (r: bool)
    ensures
        r == text::all_digits(s@),
{
    let chars = text::chars_of(s);
    let mut i: usize = 0;
    while i < chars.len()
        invariant
            i <= chars@.len(),
            chars@ == s@,
            forall|k: int| 0 <= k < i ==> text::is_digit(#[trigger] s@[k]),
        decreases chars@.len() - i,
    {
        if !text::char_is_digit(chars[i]) {
            return false;
        }
        i = i + 1;
    }
    true
}

/// The port at the end of an authority, with its colon.
pub open spec fn port_part(authority: Seq<char>) -> Seq<char> {
    match around_colon(authority) {
        Some((host, port)) => if port.len() > 0 && text::all_digits(port) {
            ":"@ + port
        } else {
            Seq::empty()
        },
        None => Seq::empty(),
    }
}

/// The URL with another host; scheme, port and path stay.
pub open spec fn rehosted(url: Seq<char>, new_host: Seq<char>) -> Option<Seq<char>> {
    match parts(url) {
        Some((scheme, authority, path)) => Some(scheme + new_host + port_part(authority) + path),
        None => None,
    }
}

/// Replaces the host of a URL.
pub fn host_replace(url: &str, new_host: &str) -> (r: Option<String>)
    ensures
        text::view_opt(r) == rehosted(url@, new_host@),
{
    match parts_of(url) {
        Some((scheme, authority, path)) => {
            let mut port = String::new();
            match split_colon(authority.as_str()) {
                Some((host, p)) => if text::length(p.as_str()) > 0 && are_digits(p.as_str()) {
                    port = text::join_two(":", p.as_str());
                },
                None => {},
            }
            let mut out = scheme;
            out.append(new_host);
            out.append(port.as_str());
            out.append(path.as_str());
            Some(out)
        },
        None => None,
    }
}

/// Digits and dots alone.
pub open spec fn numeric(s: Seq<char>) -> bool {
    forall|i: int| 0 <= i < s.len() ==> text::is_digit(#[trigger] s[i]) || s[i] == '.'
}

fn is_numeric(s: &str) -> (r: bool)
    ensures
        r == numeric(s@),
{
    let chars = text::chars_of(s);
    let mut i: usize = 0;
    while i < chars.len()
        invariant
            i <= chars@.len(),
            chars@ == s@,
            forall|k: int| 0 <= k < i ==> text::is_digit(#[trigger] s@[k]) || s@[k] == '.',
        decreases chars@.len() - i,
    {
        if !text::char_is_digit(chars[i]) && chars[i] != '.' {
            return false;
        }
        i = i + 1;
    }
    true
}

/// The gateway of the network that a URL's numeric host lies in: the last number becomes 1. The
/// URL names a port.
pub open spec fn gateway(url: Seq<char>) -> Option<Seq<char>> {
    match parts(url) {
        Some((scheme, authority, path)) => match around_colon(authority) {
            Some((host, port)) => match text::found_last(host, "."@) {
                Some(i) => if numeric(host) {
                    Some(scheme + host.take(i) + ".1:"@ + port + path)
                } else {
                    None
                },
                None => None,
            },
            None => None,
        },
        None => None,
    }
}

/// The same service at the gateway of its network, which reaches ports that the host publishes.
pub fn subnet_gateway(url: &str) -> (r: Option<String>)
    ensures
        text::view_opt(r) == gateway(url@),
{
    match parts_of(url) {
        Some((scheme, authority, path)) => match split_colon(authority.as_str()) {
            Some((host, port)) => {
                proof {
                    text::find_back_meaning(host@, "."@, host@.len() as int);
                    reveal_strlit(".");
                }
                match text::find_last(host.as_str(), ".") {
                    Some(i) => {
                        if !is_numeric(host.as_str()) {
                            return None;
                        }
                        let net = text::slice(host.as_str(), 0, i);
                        assert(net@ =~= host@.take(i as int));
                        let mut out = scheme;
                        out.append(net.as_str());
                        out.append(".1:");
                        out.append(port.as_str());
                        out.append(path.as_str());
                        Some(out)
                    },
                    None => None,
                }
            },
            None => None,
        },
        None => None,
    }
}

// ---------------------------------------------------------------------------
// Candidates

/// The list with the text at its end, unless it is there already.
pub open spec fn with_new(list: Seq<Seq<char>>, s: Seq<char>) -> Seq<Seq<char>> {
    if list.contains(s) {
        list
    } else {
        list.push(s)
    }
}

pub open spec fn with_new_opt(list: Seq<Seq<char>>, s: Option<Seq<char>>) -> Seq<Seq<char>> {
    match s {
        Some(t) => with_new(list, t),
        None => list,
    }
}

fn push_new(list: &mut Vec<String>, s: String)
    ensures
        text::views(final(list)@) == with_new(text::views(old(list)@), s@),
{
    if !crate::organizer::among_texts(list, s.as_str()) {
        proof {
            text::views_push(list@, s);
        }
        list.push(s);
    }
}

fn push_new_opt(list: &mut Vec<String>, s: Option<String>)
    ensures
        text::views(final(list)@) == with_new_opt(text::views(old(list)@), text::view_opt(s)),
{
    match s {
        Some(t) => {
            push_new(list, t);
        },
        None => {},
    }
}

/// What follows the last colon, up to a slash.
pub open spec fn last_piece(url: Seq<char>) -> Seq<char> {
    before_any(
        match around_colon(url) {
            Some((before, after)) => after,
            None => url,
        },
        "/"@,
    )
}

fn last_piece_of(url: &str) -> (r: String)
    ensures
        r@ == last_piece(url@),
{
    match split_colon(url) {
        Some((before, after)) => cut_before(after.as_str(), "/"),
        None => cut_before(url, "/"),
    }
}

/// The service at the server's own host.
pub open spec fn at_server(configured: Seq<char>, host: Seq<char>) -> Seq<char> {
    let piece = last_piece(configured);
    if piece.len() > 0 && text::all_digits(piece) {
        "http://"@ + host + ":"@ + piece
    } else {
        match around_colon(configured) {
            Some((before, after)) => before + ":"@ + host,
            None => configured,
        }
    }
}

fn at_server_host(configured: &str, host: &str) -> (r: String)
    ensures
        r@ == at_server(configured@, host@),
{
    let piece = last_piece_of(configured);
    if text::length(piece.as_str()) > 0 && are_digits(piece.as_str()) {
        let mut out = text::copy("http://");
        out.append(host);
        out.append(":");
        out.append(piece.as_str());
        out
    } else {
        match split_colon(configured) {
            Some((before, after)) => {
                let mut out = before;
                out.append(":");
                out.append(host);
                out
            },
            None => text::copy(configured),
        }
    }
}

/// Where a service is looked for: as it is set, at the server's host, at the names and addresses
/// under which containers reach their host, for Lidarr under its container's name, and at the
/// gateway of its network.
pub open spec fn candidates(key: Seq<char>, configured: Seq<char>, server_host: Option<Seq<char>>) -> Seq<
    Seq<char>,
> {
    let at_first = with_new_opt(
        seq![configured],
        match server_host {
            Some(host) => Some(at_server(configured, host)),
            None => None,
        },
    );
    let aliased = with_new_opt(
        with_new_opt(at_first, rehosted(configured, "host.docker.internal"@)),
        rehosted(configured, "172.17.0.1"@),
    );
    let named = if key == "lidarr"@ {
        with_new_opt(aliased, rehosted(configured, "lidarr"@))
    } else {
        aliased
    };
    with_new_opt(named, gateway(configured))
}

fn single(s: &str) -> (r: Vec<String>)
    ensures
        text::views(r@) == seq![s@],
{
    let mut out: Vec<String> = Vec::new();
    out.push(text::copy(s));
    assert(text::views(out@) =~= seq![s@]);
    out
}

/// The addresses at which a service is looked for; the first that answers is taken, else the one
/// that is set.
pub fn resolve_url_base(key: &str, configured: &str, server_host: &Option<String>) -> (r: Vec<String>)
    ensures
        text::views(r@) == candidates(key@, configured@, text::view_opt(*server_host)),
{
    let mut out = single(configured);
    match server_host {
        Some(host) => {
            push_new(&mut out, at_server_host(configured, host.as_str()));
        },
        None => {},
    }
    push_new_opt(&mut out, host_replace(configured, "host.docker.internal"));
    push_new_opt(&mut out, host_replace(configured, "172.17.0.1"));
    if text::same(key, "lidarr") {
        push_new_opt(&mut out, host_replace(configured, "lidarr"));
    }
    push_new_opt(&mut out, subnet_gateway(configured));
    out
}

/// AudioMuse-AI at the server's own host; it listens on 8000 where no port is set.
pub open spec fn muse_at_server(configured: Seq<char>, host: Seq<char>) -> Seq<char> {
    "http://"@ + host + ":"@ + (if text::all_digits(last_piece(configured)) {
        last_piece(configured)
    } else {
        "8000"@
    })
}

/// Where AudioMuse-AI is looked for.
pub open spec fn muse_candidates(configured: Seq<char>, server_host: Option<Seq<char>>) -> Seq<
    Seq<char>,
> {
    let at_first = match server_host {
        Some(host) => seq![configured, muse_at_server(configured, host)],
        None => seq![configured],
    };
    with_new_opt(
        with_new_opt(
            with_new_opt(at_first, rehosted(configured, "host.docker.internal"@)),
            rehosted(configured, "172.17.0.1"@),
        ),
        gateway(configured),
    )
}

/// The addresses at which AudioMuse-AI is looked for; none where it is not set.
pub fn resolve_base(audiomuse_url: &str, server_host: &Option<String>) -> (r: Vec<String>)
    ensures
        ({
            let configured = text::strip_back(text::trimmed(audiomuse_url@), text::among("/"@));
            text::views(r@) == if configured.len() == 0 {
                Seq::empty()
            } else {
                muse_candidates(configured, text::view_opt(*server_host))
            }
        }),
{
    let configured = text::trim_back(text::trim(audiomuse_url).as_str(), "/");
    if text::length(configured.as_str()) == 0 {
        let none: Vec<String> = Vec::new();
        assert(text::views(none@) =~= Seq::<Seq<char>>::empty());
        return none;
    }
    let mut out = single(configured.as_str());
    match server_host {
        Some(host) => {
            let piece = last_piece_of(configured.as_str());
            let mut alt = text::copy("http://");
            alt.append(host.as_str());
            alt.append(":");
            if are_digits(piece.as_str()) {
                alt.append(piece.as_str());
            } else {
                alt.append("8000");
            }
            let ghost shown = alt@;
            proof {
                text::views_push(out@, alt);
            }
            out.push(alt);
            assert(text::views(out@) =~= seq![configured@, shown]);
        },
        None => {},
    }
    push_new_opt(&mut out, host_replace(configured.as_str(), "host.docker.internal"));
    push_new_opt(&mut out, host_replace(configured.as_str(), "172.17.0.1"));
    push_new_opt(&mut out, subnet_gateway(configured.as_str()));
    out
}

// ---------------------------------------------------------------------------
// The server's own host

/// A setting that names the server's base URL.
pub open spec fn names_base_url(key: Seq<char>) -> bool {
    let l = text::unicode_lowered(key);
    text::ends(l, "baseurl"@) || l == "url"@ || text::ends(l, "base_url"@)
}

/// Whether a setting names the server's base URL.
pub fn is_base_url_key(key: &str) -> (r: bool)
    ensures
        r == names_base_url(key@),
{
    let l = text::unicode_lower(key);
    text::ends_with(l.as_str(), "baseurl") || text::same(l.as_str(), "url") || text::ends_with(
        l.as_str(),
        "base_url",
    )
}

/// The host that a setting's value names.
pub fn server_host(value: &str) -> (r: Option<String>)
    ensures
        text::view_opt(r) == host_in(text::trimmed(value@)),
{
    host_of_baseurl(text::trim(value).as_str())
}

/// An address that is more than "everywhere" or "here".
pub open spec fn real_address(v: Seq<char>) -> bool {
    v.len() > 0 && v != "0.0.0.0"@ && v != "::"@ && v != "localhost"@
}

/// The address that the server listens on, where it is a real one.
pub fn bind_address(value: &str) -> (r: Option<String>)
    ensures
        text::view_opt(r) == if real_address(text::trimmed(value@)) {
            Some(text::trimmed(value@))
        } else {
            None
        },
{
    let v = text::trim(value);
    if text::length(v.as_str()) > 0 && !text::same(v.as_str(), "0.0.0.0") && !text::same(
        v.as_str(),
        "::",
    ) && !text::same(v.as_str(), "localhost") {
        Some(v)
    } else {
        None
    }
}

// ---------------------------------------------------------------------------
// Laws

proof fn adding_keeps_apart(list: Seq<Seq<char>>, s: Option<Seq<char>>)
    requires
        list.no_duplicates(),
        list.len() > 0,
    ensures
        with_new_opt(list, s).no_duplicates(),
        with_new_opt(list, s).len() > 0,
        with_new_opt(list, s)[0] == list[0],
{
    match s {
        Some(t) => {
            if !list.contains(t) {
                assert forall|i: int, j: int|
                    0 <= i < list.push(t).len() && 0 <= j < list.push(t).len() && i
                        != j implies list.push(t)[i] != list.push(t)[j] by {
                    if i == list.len() {
                        assert(list[j] != t);
                    } else if j == list.len() {
                        assert(list[i] != t);
                    }
                }
            }
        },
        None => {},
    }
}

/// A service is looked for first where it is set to be, and nowhere twice.
pub proof fn no_address_is_tried_twice(
    key: Seq<char>,
    configured: Seq<char>,
    server_host: Option<Seq<char>>,
)
    ensures
        candidates(key, configured, server_host).no_duplicates(),
        candidates(key, configured, server_host).len() > 0,
        candidates(key, configured, server_host)[0] == configured,
{
    let at_host = match server_host {
        Some(host) => Some(at_server(configured, host)),
        None => None,
    };
    let a = seq![configured];
    adding_keeps_apart(a, at_host);
    let b = with_new_opt(a, at_host);
    adding_keeps_apart(b, rehosted(configured, "host.docker.internal"@));
    let c = with_new_opt(b, rehosted(configured, "host.docker.internal"@));
    adding_keeps_apart(c, rehosted(configured, "172.17.0.1"@));
    let d = with_new_opt(c, rehosted(configured, "172.17.0.1"@));
    adding_keeps_apart(d, rehosted(configured, "lidarr"@));
    let e = if key == "lidarr"@ {
        with_new_opt(d, rehosted(configured, "lidarr"@))
    } else {
        d
    };
    adding_keeps_apart(e, gateway(configured));
}

} // verus!
