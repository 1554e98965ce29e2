//! Apple Music: pictures of albums, pictures and lives of artists.

use crate::json;
use crate::json::{Json, JsonView};
use crate::lyrics;
use crate::net;
use crate::net::{Reply, Request};
use crate::organizer;
use crate::text;
use crate::url;
use vstd::prelude::*;

verus! {

/// An artist of Apple Music.
#[derive(Debug, Clone)]
pub struct AppleMusicArtist {
    pub artist_id: i64,
    pub name: String,
    pub image_url: String,
    pub biography: String,
}

/// An album of Apple Music.
#[derive(Debug, Clone)]
pub struct AppleMusicAlbum {
    pub artwork_url: String,
    pub collection_url: String,
    pub description: String,
}

// ---------------------------------------------------------------------------
// Countries

/// The countries between commas, trimmed and in lower case.
pub open spec fn country_list(parts: Seq<Seq<char>>) -> Seq<Seq<char>> {
    text::nonempty(parts.map_values(|p: Seq<char>| text::unicode_lowered(text::trimmed(p))))
}

/// The countries of a setting; the United States where it says nothing.
pub open spec fn countries_in(raw: Seq<char>) -> Seq<Seq<char>> {
    if text::trimmed(raw).len() == 0 {
        seq!["us"@]
    } else {
        country_list(text::split_by(raw, text::among(","@)))
    }
}

/// Reads the countries of a setting.
pub fn parse_countries(raw: &str) -> (r: Vec<String>)
    ensures
        text::views(r@) == countries_in(raw@),
{
    let mut out: Vec<String> = Vec::new();
    if text::length(text::trim(raw).as_str()) == 0 {
        out.push(text::copy("us"));
        assert(text::views(out@) =~= seq!["us"@]);
        return out;
    }
    let parts = text::split(raw, ",");
    let ghost all = text::views(parts@);
    let ghost lowered = all.map_values(|p: Seq<char>| text::unicode_lowered(text::trimmed(p)));
    let mut i: usize = 0;
    assert(text::views(out@) =~= text::nonempty(lowered.take(0)));
    while i < parts.len()
        invariant
            i <= parts@.len(),
            all == text::views(parts@),
            lowered == all.map_values(|p: Seq<char>| text::unicode_lowered(text::trimmed(p))),
            text::views(out@) == text::nonempty(lowered.take(i as int)),
        decreases parts@.len() - i,
    {
        let c = text::unicode_lower(text::trim(parts[i].as_str()).as_str());
        proof {
            assert(all[i as int] == parts@[i as int]@);
            assert(lowered.take(i + 1).drop_last() == lowered.take(i as int));
            assert(lowered.take(i + 1).last() == c@);
        }
        if text::length(c.as_str()) > 0 {
            proof {
                text::views_push(out@, c);
            }
            out.push(c);
        }
        i = i + 1;
    }
    assert(lowered.take(i as int) == lowered);
    out
}

/// What follows the last of a character.
pub open spec fn after_last(s: Seq<char>, mark: Seq<char>) -> Seq<char> {
    match text::found_last(s, mark) {
        Some(i) => s.skip(i + mark.len()),
        None => s,
    }
}

fn cut_after(s: &str, mark: &str) -> (r: String)
    ensures
        r@ == after_last(s@, mark@),
{
    proof {
        text::find_back_meaning(s@, mark@, s@.len() as int);
    }
    match text::find_last(s, mark) {
        Some(i) => {
            let len: usize = text::length(s);
            let from: usize = i + text::length(mark);
            let out = text::slice(s, from, len);
            assert(out@ =~= s@.skip(i + mark@.len()));
            out
        },
        None => text::copy(s),
    }
}

/// The country of the server's settings: the end of its locale, else of its language, else the
/// United States.
pub fn detect_country(locale: &Option<String>, language: &Option<String>) -> (r: String)
    ensures
        r@ == match (text::view_opt(*locale), text::view_opt(*language)) {
            (Some(l), _) => text::unicode_lowered(after_last(l, "_"@)),
            (None, Some(l)) => text::unicode_lowered(after_last(l, "-"@)),
            (None, None) => "us"@,
        },
{
    match locale {
        Some(l) => text::unicode_lower(cut_after(l.as_str(), "_").as_str()),
        None => match language {
            Some(l) => text::unicode_lower(cut_after(l.as_str(), "-").as_str()),
            None => text::copy("us"),
        },
    }
}

/// The country that is asked: the first of the list, else the United States.
pub open spec fn asked_country(countries: Seq<Seq<char>>) -> Seq<char> {
    if countries.len() == 0 {
        "us"@
    } else {
        countries[0]
    }
}

fn first_country(countries: &Vec<String>) -> (r: String)
    ensures
        r@ == asked_country(text::views(countries@)),
{
    if countries.len() == 0 {
        text::copy("us")
    } else {
        assert(text::views(countries@)[0] == countries@[0]@);
        countries[0].clone()
    }
}

// ---------------------------------------------------------------------------
// Artists

pub open spec fn headers() -> Seq<(Seq<char>, Seq<char>)> {
    seq![("User-Agent"@, "nd-organizer/0.2.0 (https://github.com/Lunatixz/nd-organizer)"@)]
}

fn make_headers() -> (r: Vec<(String, String)>)
    ensures
        organizer::pair_views(r@) == headers(),
{
    let mut h = net::no_headers();
    net::put_header(
        &mut h,
        "User-Agent",
        "nd-organizer/0.2.0 (https://github.com/Lunatixz/nd-organizer)",
    );
    assert(organizer::pair_views(h@) =~= headers());
    h
}

/// An artist's name as it is looked for.
pub open spec fn normal_name(artist: Seq<char>) -> Seq<char> {
    text::unicode_lowered(text::trimmed(artist))
}

/// The key under which an artist's ID is kept, and the question for it; none without a name.
pub fn resolve_artist_id(artist: &str, countries: &Vec<String>) -> (r: Option<(String, Request)>)
    ensures
        match r {
            Some(p) => normal_name(artist@).len() > 0 && p.0@ == "am:artist:"@ + normal_name(
                artist@,
            ) && p.1@ == net::asking(
                "https://itunes.apple.com/search?term="@ + url::encoded(normal_name(artist@))
                    + "&entity=musicArtist&limit=5&country="@ + asked_country(
                    text::views(countries@),
                ),
                headers(),
                10_000,
            ),
            None => normal_name(artist@).len() == 0,
        },
{
    let name = text::unicode_lower(text::trim(artist).as_str());
    if text::length(name.as_str()) == 0 {
        return None;
    }
    let mut q = text::copy("https://itunes.apple.com/search?term=");
    q.append(url::urlencode(name.as_str()).as_str());
    q.append("&entity=musicArtist&limit=5&country=");
    q.append(first_country(countries).as_str());
    Some((text::join_two("am:artist:", name.as_str()), net::ask(q, make_headers(), 10_000)))
}

/// A value of the given kind.
pub open spec fn of_kind(v: JsonView, kind: Seq<char>) -> bool {
    json::string_of(json::member(v, "wrapperType"@)) == Some(kind)
}

fn is_kind(v: &Json, kind: &str) -> (r: bool)
    ensures
        r == of_kind(v@, kind@),
{
    match json::str_value(v.get("wrapperType")) {
        Some(k) => text::same(k.as_str(), kind),
        None => false,
    }
}

/// The first artist from position `i` on.
pub open spec fn first_artist(items: Seq<JsonView>, i: int) -> Option<JsonView>
    decreases items.len() - i,
{
    if i < 0 || i >= items.len() {
        None
    } else if of_kind(items[i], "artist"@) {
        Some(items[i])
    } else {
        first_artist(items, i + 1)
    }
}

/// The ID of the first artist of an answer.
pub open spec fn artist_id_of(answer: Option<JsonView>) -> Option<int> {
    json::int_of(
        json::member_opt(
            first_artist(json::items_of(json::member_opt(answer, "results"@)), 0),
            "artistId"@,
        ),
    )
}

pub fn found_artist(answer: &Option<Json>) -> (r: Option<i64>)
    ensures
        match r {
            Some(n) => artist_id_of(json::doc_view(*answer)) == Some(n as int),
            None => artist_id_of(json::doc_view(*answer)) is None,
        },
{
    let items = match json::items(json::get_opt(json::root(answer), "results")) {
        Some(v) => v,
        None => {
            return None;
        },
    };
    let ghost all = json::trees(items@);
    let mut i: usize = 0;
    proof {
        json::trees_index(items@);
    }
    while i < items.len()
        invariant
            i <= items@.len(),
            all == json::trees(items@),
            all == json::items_of(json::member_opt(json::doc_view(*answer), "results"@)),
            all.len() == items@.len(),
            forall|k: int| 0 <= k < items@.len() ==> all[k] == json::tree(#[trigger] items@[k]),
            first_artist(all, 0) == first_artist(all, i as int),
        decreases items@.len() - i,
    {
        assert(all[i as int] == json::tree(items@[i as int]));
        if is_kind(&items[i], "artist") {
            return json::int_value(items[i].get("artistId"));
        }
        i = i + 1;
    }
    None
}

/// What is learned of an artist's ID.
#[derive(Debug, Clone, Copy, PartialEq, Eq, Structural)]
pub enum ArtistId {
    /// It is known, and kept for thirty days.
    Known(i64),
    /// The answer does not say; nothing is kept.
    Unclear,
    /// There was no answer; that is kept for two hours.
    Unanswered,
}

/// What an answer says of an artist's ID.
pub fn answered_artist(reply: &Reply) -> (r: ArtistId)
    ensures
        match net::good_body(reply@) {
            Some(body) => match artist_id_of(json::document(body)) {
                Some(n) => r == ArtistId::Known(n as i64),
                None => r == ArtistId::Unclear,
            },
            None => r == ArtistId::Unanswered,
        },
{
    match net::ok_body(reply) {
        Some(body) => match found_artist(&json::parse(body.as_str())) {
            Some(n) => ArtistId::Known(n),
            None => ArtistId::Unclear,
        },
        None => ArtistId::Unanswered,
    }
}

/// What is kept of an artist's ID, and for how many seconds; nought stands for "no answer".
pub fn keeps_id(id: ArtistId) -> (r: Option<(i64, i64)>)
    ensures
        r == match id {
            ArtistId::Known(n) => Some((n, 2_592_000i64)),
            ArtistId::Unclear => None,
            ArtistId::Unanswered => Some((0i64, 7200i64)),
        },
{
    match id {
        ArtistId::Known(n) => Some((n, 2_592_000)),
        ArtistId::Unclear => None,
        ArtistId::Unanswered => Some((0, 7200)),
    }
}

/// The ID that was kept.
pub fn kept_id(stored: i64) -> (r: Option<i64>)
    ensures
        r == if stored == 0 {
            None
        } else {
            Some(stored)
        },
{
    if stored == 0 {
        None
    } else {
        Some(stored)
    }
}

/// How long a result is kept, in seconds: as many days as are set where there was an answer, two
/// hours where there was none.
pub fn keep_secs(answered: bool, ttl_days: u32) -> (r: i64)
    ensures
        r == if answered {
            ttl_days * 86_400
        } else {
            7200
        },
{
    if answered {
        (ttl_days as i64) * 86_400
    } else {
        7200
    }
}

// ---------------------------------------------------------------------------
// Albums

/// The key under which an album's picture is kept, and the question for the artist's albums.
pub fn fetch_album_artwork(artist_id: i64, album: &str) -> (r: (String, Request))
    ensures
        r.0@ == "am:art:"@ + text::decimal_int(artist_id as int) + ":"@ + text::unicode_lowered(
            album@,
        ),
        r.1@ == net::asking(
            "https://itunes.apple.com/lookup?id="@ + text::decimal_int(artist_id as int)
                + "&entity=album&limit=200"@,
            headers(),
            10_000,
        ),
{
    let id = text::format_int(artist_id);
    let mut key = text::copy("am:art:");
    key.append(id.as_str());
    key.append(":");
    key.append(text::unicode_lower(album).as_str());
    let mut q = text::copy("https://itunes.apple.com/lookup?id=");
    q.append(id.as_str());
    q.append("&entity=album&limit=200");
    (key, net::ask(q, make_headers(), 10_000))
}

/// An album of that name.
pub open spec fn is_album(v: JsonView, name: Seq<char>) -> bool {
    of_kind(v, "collection"@) && (json::string_of(
        json::member(v, "collectionName"@),
    ) matches Some(n) && text::unicode_lowered(n) == name)
}

/// The first album of that name from position `i` on.
pub open spec fn first_album(items: Seq<JsonView>, name: Seq<char>, i: int) -> Option<JsonView>
    decreases items.len() - i,
{
    if i < 0 || i >= items.len() {
        None
    } else if is_album(items[i], name) {
        Some(items[i])
    } else {
        first_album(items, name, i + 1)
    }
}

/// Where the picture of an album is, by the name in lower case.
pub open spec fn picture_of(answer: Option<JsonView>, name: Seq<char>) -> Option<Seq<char>> {
    json::string_of(
        json::member_opt(
            first_album(json::items_of(json::member_opt(answer, "results"@)), name, 0),
            "artworkUrl100"@,
        ),
    )
}

pub fn found_picture(answer: &Option<Json>, album: &str) -> (r: Option<String>)
    ensures
        text::view_opt(r) == picture_of(json::doc_view(*answer), normal_name(album@)),
{
    let name = text::unicode_lower(text::trim(album).as_str());
    let items = match json::items(json::get_opt(json::root(answer), "results")) {
        Some(v) => v,
        None => {
            return None;
        },
    };
    let ghost all = json::trees(items@);
    let mut i: usize = 0;
    proof {
        json::trees_index(items@);
    }
    while i < items.len()
        invariant
            i <= items@.len(),
            name@ == normal_name(album@),
            all == json::trees(items@),
            all == json::items_of(json::member_opt(json::doc_view(*answer), "results"@)),
            all.len() == items@.len(),
            forall|k: int| 0 <= k < items@.len() ==> all[k] == json::tree(#[trigger] items@[k]),
            first_album(all, name@, 0) == first_album(all, name@, i as int),
        decreases items@.len() - i,
    {
        assert(all[i as int] == json::tree(items@[i as int]));
        if is_kind(&items[i], "collection") {
            match json::str_value(items[i].get("collectionName")) {
                Some(n) => if text::same(text::unicode_lower(n.as_str()).as_str(), name.as_str()) {
                    return json::str_value(items[i].get("artworkUrl100"));
                },
                None => {},
            }
        }
        i = i + 1;
    }
    None
}

/// The first position from `i` on without a digit.
pub open spec fn digits_end(s: Seq<char>, i: int) -> int
    decreases s.len() - i,
{
    if 0 <= i < s.len() && text::is_digit(s[i]) {
        digits_end(s, i + 1)
    } else {
        i
    }
}

fn skip_digits(s: &Vec<char>, i: usize) -> (r: usize)
    requires
        i <= s@.len(),
    ensures
        r == digits_end(s@, i as int),
        i <= r <= s@.len(),
{
    let mut k: usize = i;
    while k < s.len() && text::char_is_digit(s[k])
        invariant
            i <= k <= s@.len(),
            digits_end(s@, i as int) == digits_end(s@, k as int),
        decreases s@.len() - k,
    {
        k = k + 1;
    }
    k
}

/// A size such as `/100x100bb.` at position `i`: where its dot is.
pub open spec fn size_at(s: Seq<char>, i: int) -> Option<int> {
    if 0 <= i < s.len() && s[i] == '/' {
        let a = digits_end(s, i + 1);
        let b = digits_end(s, a + 1);
        if a > i + 1 && a < s.len() && s[a] == 'x' && b > a + 1 && b + 2 < s.len() && s[b] == 'b'
            && s[b + 1] == 'b' && s[b + 2] == '.' {
            Some(b + 2)
        } else {
            None
        }
    } else {
        None
    }
}

fn find_size(s: &Vec<char>, i: usize) -> (r: Option<usize>)
    requires
        i < s@.len(),
    ensures
        match r {
            Some(j) => size_at(s@, i as int) == Some(j as int) && i < j < s@.len(),
            None => size_at(s@, i as int) is None,
        },
{
    let n: usize = s.len();
    if s[i] != '/' {
        return None;
    }
    let a = skip_digits(s, i + 1);
    if a == i + 1 || a >= n || s[a] != 'x' {
        return None;
    }
    let b = skip_digits(s, a + 1);
    if b == a + 1 || n - b < 3 || s[b] != 'b' || s[b + 1] != 'b' || s[b + 2] != '.' {
        return None;
    }
    Some(b + 2)
}

/// The address with its first size, from position `i` on, replaced.
pub open spec fn resized_from(s: Seq<char>, size: Seq<char>, i: int) -> Seq<char>
    decreases s.len() - i,
{
    if i < 0 || i >= s.len() {
        s
    } else {
        match size_at(s, i) {
            Some(j) => s.take(i) + "/"@ + size + "x"@ + size + "bb"@ + s.skip(j),
            None => resized_from(s, size, i + 1),
        }
    }
}

/// The address of a picture in another size: `/100x100bb.` becomes `/1500x1500bb.`. An address
/// without a size stays as it is.
pub fn rewrite_image_size(url: &str, size: usize) -> (r: String)
    ensures
        r@ == resized_from(url@, text::decimal(size as nat), 0),
{
    let chars = text::chars_of(url);
    let number = text::format_nat(size as u64);
    let mut i: usize = 0;
    while i < chars.len()
        invariant
            i <= chars@.len(),
            chars@ == url@,
            number@ == text::decimal(size as nat),
            resized_from(url@, number@, 0) == resized_from(url@, number@, i as int),
        decreases chars@.len() - i,
    {
        match find_size(&chars, i) {
            Some(j) => {
                let mut out = text::text_of(&chars, 0, i);
                out.append("/");
                out.append(number.as_str());
                out.append("x");
                out.append(number.as_str());
                out.append("bb");
                let n: usize = chars.len();
                let rest = text::text_of(&chars, j, n);
                proof {
                    assert(chars@.subrange(0, i as int) =~= url@.take(i as int));
                    assert(chars@.subrange(j as int, n as int) =~= url@.skip(j as int));
                }
                out.append(rest.as_str());
                return out;
            },
            None => {},
        }
        i = i + 1;
    }
    text::copy(url)
}

/// The question for an album's picture, 1500 pixels wide; none where the answer names no picture.
pub fn picture_request(reply: &Reply, album: &str) -> (r: Option<Request>)
    ensures
        ({
            let place = match net::good_body(reply@) {
                Some(body) => picture_of(json::document(body), normal_name(album@)),
                None => None,
            };
            match r {
                Some(q) => place matches Some(p) && q@ == net::asking(
                    resized_from(p, text::decimal(1500), 0),
                    headers(),
                    15_000,
                ),
                None => place is None,
            }
        }),
{
    match net::ok_body(reply) {
        Some(body) => match found_picture(&json::parse(body.as_str()), album) {
            Some(p) => Some(
                net::ask(rewrite_image_size(p.as_str(), 1500), make_headers(), 15_000),
            ),
            None => None,
        },
        None => None,
    }
}

// ---------------------------------------------------------------------------
// Pages of artists

/// The question for an artist's page.
pub fn artist_page(artist_id: i64, countries: &Vec<String>) -> (r: Request)
    ensures
        r@ == net::asking(
            "https://music.apple.com/"@ + asked_country(text::views(countries@)) + "/artist/-/"@
                + text::decimal_int(artist_id as int),
            headers(),
            10_000,
        ),
{
    let mut q = text::copy("https://music.apple.com/");
    q.append(first_country(countries).as_str());
    q.append("/artist/-/");
    q.append(text::format_int(artist_id).as_str());
    net::ask(q, make_headers(), 10_000)
}

/// The key under which an artist's picture is kept; none where pictures are not wanted.
pub fn fetch_artist_image(wanted: bool, artist_id: i64) -> (r: Option<String>)
    ensures
        text::view_opt(r) == if wanted {
            Some("am:img:"@ + text::decimal_int(artist_id as int))
        } else {
            None
        },
{
    if wanted {
        Some(text::join_two("am:img:", text::format_int(artist_id).as_str()))
    } else {
        None
    }
}

/// The key under which an artist's life is kept; none where it is not wanted.
pub fn fetch_artist_bio(wanted: bool, artist_id: i64) -> (r: Option<String>)
    ensures
        text::view_opt(r) == if wanted {
            Some("am:bio:"@ + text::decimal_int(artist_id as int))
        } else {
            None
        },
{
    if wanted {
        Some(text::join_two("am:bio:", text::format_int(artist_id).as_str()))
    } else {
        None
    }
}

/// What follows the first `mark`, with the mark itself.
pub open spec fn from_mark(s: Seq<char>, mark: Seq<char>) -> Option<Seq<char>> {
    match text::found(s, mark) {
        Some(i) => Some(s.skip(i)),
        None => None,
    }
}

fn cut_from(s: &str, mark: &str) -> (r: Option<String>)
    ensures
        text::view_opt(r) == from_mark(s@, mark@),
{
    proof {
        text::find_from_meaning(s@, mark@, 0);
    }
    match text::find(s, mark) {
        Some(i) => {
            let out = text::slice(s, i, text::length(s));
            assert(out@ =~= s@.skip(i as int));
            Some(out)
        },
        None => None,
    }
}

/// The description of the page for machines: from the first brace after its mark up to the brace
/// before the end of the script.
pub open spec fn linked_data(html: Seq<char>) -> Option<Seq<char>> {
    match from_mark(html, "application/ld+json"@) {
        Some(chunk) => match from_mark(chunk, "{"@) {
            Some(body) => match text::found(body, "}</script>"@) {
                Some(e) => Some(body.take(e + 1)),
                None => None,
            },
            None => None,
        },
        None => None,
    }
}

fn find_linked_data(html: &str) -> (r: Option<String>)
    ensures
        text::view_opt(r) == linked_data(html@),
{
    match cut_from(html, "application/ld+json") {
        Some(chunk) => match cut_from(chunk.as_str(), "{") {
            Some(body) => {
                proof {
                    text::find_from_meaning(body@, "}</script>"@, 0);
                    reveal_strlit("}</script>");
                }
                match text::find(body.as_str(), "}</script>") {
                    Some(e) => {
                        let len: usize = text::length(body.as_str());
                        assert(e + 1 <= len);
                        let out = text::slice(body.as_str(), 0, e + 1);
                        assert(out@ =~= body@.take(e + 1));
                        Some(out)
                    },
                    None => None,
                }
            },
            None => None,
        },
        None => None,
    }
}

/// The description of the page, read.
pub open spec fn page_data(html: Seq<char>) -> Option<JsonView> {
    match linked_data(html) {
        Some(s) => json::document(s),
        None => None,
    }
}

fn read_page_data(html: &str) -> (r: Option<Json>)
    ensures
        json::doc_view(r) == page_data(html@),
{
    match find_linked_data(html) {
        Some(s) => json::parse(s.as_str()),
        None => None,
    }
}

/// A picture that stands for none.
pub open spec fn placeholder_image(place: Seq<char>) -> bool {
    text::has(place, "apple-music.png"@) || text::has(place, "placeholder"@)
}

pub fn is_placeholder_image(place: &str) -> (r: bool)
    ensures
        r == placeholder_image(place@),
{
    text::contains(place, "apple-music.png") || text::contains(place, "placeholder")
}

/// The picture that the page offers for previews: up to the quotation mark after its mark.
pub open spec fn preview_image(html: Seq<char>) -> Option<Seq<char>> {
    let mark = "property=\"og:image\" content=\""@;
    match from_mark(html, mark) {
        Some(chunk) => {
            let rest = chunk.skip(mark.len() as int);
            match text::found(rest, "\""@) {
                Some(e) => Some(rest.take(e)),
                None => None,
            }
        },
        None => None,
    }
}

fn find_preview_image(html: &str) -> (r: Option<String>)
    ensures
        text::view_opt(r) == preview_image(html@),
{
    let mark = "property=\"og:image\" content=\"";
    proof {
        text::find_from_meaning(html@, mark@, 0);
    }
    match text::find(html, mark) {
        Some(i) => {
            let len: usize = text::length(html);
            let from: usize = i + text::length(mark);
            let rest = text::slice(html, from, len);
            proof {
                assert(rest@ =~= html@.skip(i as int).skip(mark@.len() as int));
                text::find_from_meaning(rest@, "\""@, 0);
            }
            match text::find(rest.as_str(), "\"") {
                Some(e) => {
                    let out = text::slice(rest.as_str(), 0, e);
                    assert(out@ =~= rest@.take(e as int));
                    Some(out)
                },
                None => None,
            }
        },
        None => None,
    }
}

pub open spec fn no_placeholder(place: Option<Seq<char>>) -> Option<Seq<char>> {
    match place {
        Some(p) => if placeholder_image(p) {
            None
        } else {
            Some(p)
        },
        None => None,
    }
}

/// The picture of an artist, given what the page says for machines: the picture it names, else
/// the one for previews. Placeholders are none.
pub open spec fn image_of(html: Seq<char>, data: Option<JsonView>) -> Option<Seq<char>> {
    match no_placeholder(json::string_of(json::member_opt(data, "image"@))) {
        Some(p) => Some(p),
        None => no_placeholder(preview_image(html)),
    }
}

/// The picture on a page, given what it says for machines.
pub fn image_from(html: &str, data: &Option<Json>) -> (r: Option<String>)
    ensures
        text::view_opt(r) == image_of(html@, json::doc_view(*data)),
{
    match json::str_value(json::get_opt(json::root(data), "image")) {
        Some(p) => if !is_placeholder_image(p.as_str()) {
            return Some(p);
        },
        None => {},
    }
    match find_preview_image(html) {
        Some(p) => if is_placeholder_image(p.as_str()) {
            None
        } else {
            Some(p)
        },
        None => None,
    }
}

/// The picture of an artist on the artist's page.
pub fn extract_image_from_html(html: &str) -> (r: Option<String>)
    ensures
        text::view_opt(r) == image_of(html@, page_data(html@)),
{
    image_from(html, &read_page_data(html))
}

/// A text that stands for no life.
pub open spec fn placeholder_bio(s: Seq<char>) -> bool {
    text::has(text::unicode_lowered(s), "apple music"@) && text::begins(
        text::unicode_lowered(s),
        "listen to"@,
    )
}

pub fn is_placeholder_bio(s: &str) -> (r: bool)
    ensures
        r == placeholder_bio(s@),
{
    let l = text::unicode_lower(s);
    text::contains(l.as_str(), "apple music") && text::starts_with(l.as_str(), "listen to")
}

/// A line with single spaces between its words.
pub open spec fn squeezed(line: Seq<char>) -> Seq<char> {
    text::joined(text::words_in(line), " "@)
}

/// A text with plain line ends, single spaces and nothing around it.
pub open spec fn tidied(s: Seq<char>) -> Seq<char> {
    let plain = text::replaced(text::replaced(s, "\r\n"@, "\n"@), "\r"@, "\n"@);
    let lines = text::split_by(plain, text::among("\n"@));
    text::trimmed(text::joined(lines.map_values(|l: Seq<char>| squeezed(l)), "\n"@))
}

/// Puts a text in order.
pub fn normalize_text(s: &str) -> (r: String)
    ensures
        r@ == tidied(s@),
{
    let plain = text::replace(text::replace(s, "\r\n", "\n").as_str(), "\r", "\n");
    let lines = text::split(plain.as_str(), "\n");
    let ghost all = text::views(lines@);
    let ghost shown = all.map_values(|l: Seq<char>| squeezed(l));
    let mut out: Vec<String> = Vec::new();
    let mut i: usize = 0;
    assert(text::views(out@) =~= shown.take(0));
    while i < lines.len()
        invariant
            i <= lines@.len(),
            all == text::views(lines@),
            shown == all.map_values(|l: Seq<char>| squeezed(l)),
            text::views(out@) == shown.take(i as int),
        decreases lines@.len() - i,
    {
        let line = text::join(&text::words(lines[i].as_str()), " ");
        proof {
            assert(all[i as int] == lines@[i as int]@);
            text::views_push(out@, line);
            assert(shown.take(i + 1) =~= shown.take(i as int).push(line@));
        }
        out.push(line);
        i = i + 1;
    }
    assert(shown.take(i as int) =~= shown);
    text::trim(text::join(&out, "\n").as_str())
}

/// The life of an artist, given what the page says for machines.
pub open spec fn bio_of(data: Option<JsonView>) -> Option<Seq<char>> {
    match json::string_of(json::member_opt(data, "description"@)) {
        Some(d) => if tidied(d).len() == 0 || placeholder_bio(tidied(d)) {
            None
        } else {
            Some(tidied(d))
        },
        None => None,
    }
}

pub fn bio_from(data: &Option<Json>) -> (r: Option<String>)
    ensures
        text::view_opt(r) == bio_of(json::doc_view(*data)),
{
    match json::str_value(json::get_opt(json::root(data), "description")) {
        Some(d) => {
            let t = normalize_text(d.as_str());
            if text::length(t.as_str()) == 0 || is_placeholder_bio(t.as_str()) {
                None
            } else {
                Some(t)
            }
        },
        None => None,
    }
}

/// The life of an artist on the artist's page.
pub fn extract_bio_from_html(html: &str) -> (r: Option<String>)
    ensures
        text::view_opt(r) == bio_of(page_data(html@)),
{
    bio_from(&read_page_data(html))
}

/// What was kept of a page: an empty text stands for nothing.
pub fn kept_text(stored: Option<String>) -> (r: Option<String>)
    ensures
        text::view_opt(r) == lyrics::filled(text::view_opt(stored)),
{
    lyrics::keep_filled(stored)
}

} // verus!
