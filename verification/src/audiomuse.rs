//! AudioMuse-AI: what its analysis says of a track.

use crate::config::Config;
use crate::json;
use crate::json::{Json, JsonView};
use crate::lyrics;
use crate::net;
use crate::net::{Body, BodyView, CircuitOp, Reply, ReplyView, Request};
use crate::organizer;
use crate::tags;
use crate::tags::TagWrite;
use crate::text;
use crate::url;
use vstd::prelude::*;

verus! {

/// What the analysis says of a track. The numbers keep their text.
#[derive(Debug, Clone)]
pub struct Acoustic {
    pub bpm: Option<String>,
    pub key: Option<String>,
    pub mood: Option<String>,
    pub energy: Option<String>,
}

/// The mathematical value of an analysis.
#[verifier::ext_equal]
pub struct AcousticView {
    pub bpm: Option<Seq<char>>,
    pub key: Option<Seq<char>>,
    pub mood: Option<Seq<char>>,
    pub energy: Option<Seq<char>>,
}

impl View for Acoustic {
    type V = AcousticView;

    open spec fn view(&self) -> AcousticView {
        AcousticView {
            bpm: text::view_opt(self.bpm),
            key: text::view_opt(self.key),
            mood: text::view_opt(self.mood),
            energy: text::view_opt(self.energy),
        }
    }
}

pub open spec fn acoustic_view(a: Option<Acoustic>) -> Option<AcousticView> {
    match a {
        Some(v) => Some(v@),
        None => None,
    }
}

/// A number that may be missing or null; `None` where the field is something else.
pub open spec fn optional_number(v: Option<JsonView>) -> Option<Option<Seq<char>>> {
    match v {
        None => Some(None),
        Some(JsonView::Null) => Some(None),
        Some(w) => match json::number_text(Some(w)) {
            Some(s) => Some(Some(s)),
            None => None,
        },
    }
}

fn read_number(v: Option<&Json>) -> (r: Option<Option<String>>)
    ensures
        match r {
            Some(t) => optional_number(json::shown(v)) == Some(text::view_opt(t)),
            None => optional_number(json::shown(v)) is None,
        },
{
    match v {
        None => Some(None),
        Some(Json::Null) => Some(None),
        Some(w) => match json::number_value(v) {
            Some(s) => Some(Some(s)),
            None => None,
        },
    }
}

/// The analysis in a record: its fields may be missing, and those that are there have their types.
/// Empty texts say nothing.
pub open spec fn analysis_of(v: JsonView) -> Option<AcousticView> {
    match (
        optional_number(json::slot(v, "bpm"@, 0, 0, 4)),
        json::optional_text(json::slot(v, "key"@, 1, 0, 4)),
        json::optional_text(json::slot(v, "mood"@, 2, 0, 4)),
        optional_number(json::slot(v, "energy"@, 3, 0, 4)),
    ) {
        (Some(bpm), Some(key), Some(mood), Some(energy)) => Some(
            AcousticView { bpm, key: lyrics::filled(key), mood: lyrics::filled(mood), energy },
        ),
        _ => None,
    }
}

/// The analysis of an answer: an object, or an array of the four fields in their order.
pub open spec fn acoustic_of(answer: Option<JsonView>) -> Option<AcousticView> {
    match answer {
        Some(JsonView::Object(m)) => analysis_of(answer->0),
        Some(JsonView::Array(x)) => if x.len() <= 4 {
            analysis_of(answer->0)
        } else {
            None
        },
        _ => None,
    }
}

/// Reads the analysis out of an answer.
pub fn parse_acoustic(answer: &Option<Json>) -> (r: Option<Acoustic>)
    ensures
        acoustic_view(r) == acoustic_of(json::doc_view(*answer)),
{
    let v = match answer {
        Some(v) => v,
        None => {
            return None;
        },
    };
    let fits: bool = match v {
        Json::Object(m) => true,
        Json::Array(x) => {
            proof {
                json::trees_index(x@);
            }
            x.len() <= 4
        },
        _ => false,
    };
    if !fits {
        return None;
    }
    match (
        read_number(v.slot("bpm", 0, 0, 4)),
        json::optional_string(v.slot("key", 1, 0, 4)),
        json::optional_string(v.slot("mood", 2, 0, 4)),
        read_number(v.slot("energy", 3, 0, 4)),
    ) {
        (Some(bpm), Some(key), Some(mood), Some(energy)) => Some(
            Acoustic {
                bpm,
                key: lyrics::keep_filled(key),
                mood: lyrics::keep_filled(mood),
                energy,
            },
        ),
        _ => None,
    }
}

// ---------------------------------------------------------------------------
// Asking

pub open spec fn headers(cfg: Config) -> Seq<(Seq<char>, Seq<char>)> {
    let token = text::trimmed(cfg.audiomuse_token@);
    if token.len() == 0 {
        Seq::empty()
    } else {
        seq![("Authorization"@, "Bearer "@ + token)]
    }
}

/// The headers of every request.
pub fn make_headers(cfg: &Config) -> (r: Vec<(String, String)>)
    ensures
        organizer::pair_views(r@) == headers(*cfg),
{
    let token = text::trim(cfg.audiomuse_token.as_str());
    let mut h = net::no_headers();
    if text::length(token.as_str()) > 0 {
        net::put_header(&mut h, "Authorization", text::join_two("Bearer ", token.as_str()).as_str());
    }
    assert(organizer::pair_views(h@) =~= headers(*cfg));
    h
}

/// The key under which an analysis is kept.
pub open spec fn analysis_name(artist: Seq<char>, title: Seq<char>) -> Seq<char> {
    "am:"@ + text::unicode_lowered(artist) + "|"@ + text::unicode_lowered(title)
}

/// Something can be asked for: there is an address, an artist and a title.
pub open spec fn askable(base: Seq<char>, artist: Seq<char>, title: Seq<char>) -> bool {
    base.len() > 0 && text::trimmed(artist).len() > 0 && text::trimmed(title).len() > 0
}

/// The key under which the analysis of a track is kept, and the question for it.
pub fn fetch(cfg: &Config, base: &str, artist: &str, title: &str) -> (r: Option<(String, Request)>)
    ensures
        match r {
            Some(p) => askable(base@, artist@, title@) && p.0@ == analysis_name(artist@, title@)
                && p.1@ == net::asking(
                base@ + "/api/analysis?artist="@ + url::encoded(artist@) + "&track="@
                    + url::encoded(title@),
                headers(*cfg),
                15_000,
            ),
            None => !askable(base@, artist@, title@),
        },
{
    if text::length(base) == 0 || text::length(text::trim(artist).as_str()) == 0 || text::length(
        text::trim(title).as_str(),
    ) == 0 {
        return None;
    }
    let mut key = text::copy("am:");
    key.append(text::unicode_lower(artist).as_str());
    key.append("|");
    key.append(text::unicode_lower(title).as_str());
    let mut q = text::copy(base);
    q.append("/api/analysis?artist=");
    q.append(url::urlencode(artist).as_str());
    q.append("&track=");
    q.append(url::urlencode(title).as_str());
    Some((key, net::ask(q, make_headers(cfg), 15_000)))
}

/// The circuit after a question: that the service does not offer the analysis is no failure.
pub open spec fn fetch_op(reply: ReplyView) -> CircuitOp {
    match reply {
        ReplyView::Answer { status, body } => if status == 200 {
            CircuitOp::Clear
        } else if status == 404 || status == 405 {
            CircuitOp::Keep
        } else {
            CircuitOp::MarkFailed
        },
        _ => CircuitOp::MarkFailed,
    }
}

/// What an answer gives: the analysis, and what becomes of the circuit.
pub fn fetch_outcome(reply: &Reply) -> (r: (Option<Acoustic>, CircuitOp))
    ensures
        acoustic_view(r.0) == match net::good_body(reply@) {
            Some(body) => acoustic_of(json::document(body)),
            None => None,
        },
        r.1 == fetch_op(reply@),
{
    match reply {
        Reply::Answer { status, body } => if *status == 200 {
            (parse_acoustic(&json::parse(body.as_str())), CircuitOp::Clear)
        } else if *status == 404 || *status == 405 {
            (None, CircuitOp::Keep)
        } else {
            (None, CircuitOp::MarkFailed)
        },
        _ => (None, CircuitOp::MarkFailed),
    }
}

/// Asks for the library to be analysed again; nothing where the service is not set.
pub fn re_sync(cfg: &Config, base: &str) -> (r: Option<Request>)
    ensures
        match r {
            Some(q) => base@.len() > 0 && q@ == net::posting(
                base@ + "/api/analysis/start"@,
                headers(*cfg),
                BodyView::Text("{}"@),
                15_000,
            ),
            None => base@.len() == 0,
        },
{
    if text::length(base) == 0 {
        return None;
    }
    Some(
        net::post(
            text::join_two(base, "/api/analysis/start"),
            make_headers(cfg),
            Body::Text(text::copy("{}")),
            15_000,
        ),
    )
}

/// What is said where the request came to nothing. That an analysis is running already is fine.
pub open spec fn sync_failure(reply: ReplyView) -> Option<Seq<char>> {
    match reply {
        ReplyView::Answer { status, body } => if 200 <= status < 300 || status == 409 {
            None
        } else {
            Some("AudioMuse-AI analysis start HTTP "@ + text::decimal_int(status))
        },
        ReplyView::Silent => Some("AudioMuse-AI analysis start: no response"@),
        ReplyView::Failed { cause } => Some("AudioMuse-AI analysis start failed: "@ + cause),
    }
}

/// What came of the request, and what becomes of the circuit.
pub fn sync_outcome(reply: &Reply) -> (r: (Result<(), String>, CircuitOp))
    ensures
        match r.0 {
            Ok(_) => sync_failure(reply@) is None,
            Err(e) => sync_failure(reply@) == Some(e@),
        },
        r.1 == if sync_failure(reply@) is None {
            CircuitOp::Clear
        } else {
            CircuitOp::MarkFailed
        },
{
    match reply {
        Reply::Answer { status, body } => if (200 <= *status && *status < 300) || *status == 409 {
            (Ok(()), CircuitOp::Clear)
        } else {
            (
                Err(
                    text::join_two(
                        "AudioMuse-AI analysis start HTTP ",
                        text::format_int(*status as i64).as_str(),
                    ),
                ),
                CircuitOp::MarkFailed,
            )
        },
        Reply::Silent => (
            Err(text::copy("AudioMuse-AI analysis start: no response")),
            CircuitOp::MarkFailed,
        ),
        Reply::Failed { cause } => (
            Err(text::join_two("AudioMuse-AI analysis start failed: ", cause.as_str())),
            CircuitOp::MarkFailed,
        ),
    }
}

/// Whether analysis waits while the service recovers. `may_probe` tells whether a probe is due,
/// `up` what it found.
pub fn should_pause(paused: bool, may_probe: bool, up: bool) -> (r: (bool, CircuitOp))
    ensures
        r.0 == (paused && !(may_probe && up)),
        r.1 == if paused && may_probe && up {
            CircuitOp::Clear
        } else {
            CircuitOp::Keep
        },
{
    if !paused {
        (false, CircuitOp::Keep)
    } else if may_probe && up {
        (false, CircuitOp::Clear)
    } else {
        (true, CircuitOp::Keep)
    }
}

// ---------------------------------------------------------------------------
// Tags

/// The value for a tag, where it is there and may be written.
pub open spec fn due(
    list: Seq<(Seq<char>, Seq<char>)>,
    tag: Seq<char>,
    value: Option<Seq<char>>,
    now: Seq<char>,
    overwrite: bool,
) -> Seq<(Seq<char>, Seq<char>)> {
    match value {
        Some(v) => if tags::writes(now, v, overwrite) {
            list.push((tag, v))
        } else {
            list
        },
        None => list,
    }
}

/// What stands in the file already.
#[derive(Debug)]
pub struct AcousticTags {
    pub bpm: String,
    pub key: String,
    pub mood: String,
    pub energy: String,
}

/// The tags that are written: of each value that is known, and that does not stand there already.
pub open spec fn due_tags(ac: AcousticView, now: AcousticTags, overwrite: bool) -> Seq<
    (Seq<char>, Seq<char>),
> {
    due(
        due(
            due(
                due(Seq::empty(), "BPM"@, ac.bpm, now.bpm@, overwrite),
                "INITIALKEY"@,
                ac.key,
                now.key@,
                overwrite,
            ),
            "MOOD"@,
            ac.mood,
            now.mood@,
            overwrite,
        ),
        "ENERGY"@,
        ac.energy,
        now.energy@,
        overwrite,
    )
}

fn push_due(
    list: &mut Vec<TagWrite>,
    tag: &str,
    value: &Option<String>,
    now: &str,
    overwrite: bool,
)
    ensures
        tags::write_views(final(list)@) == due(
            tags::write_views(old(list)@),
            tag@,
            text::view_opt(*value),
            now@,
            overwrite,
        ),
{
    match value {
        Some(v) => if tags::should_write(now, v.as_str(), overwrite) {
            let ghost before = list@;
            list.push(TagWrite { key: text::copy(tag), value: v.clone() });
            assert(tags::write_views(list@) =~= tags::write_views(before).push((tag@, v@)));
        },
        None => {},
    }
}

/// The tags to write, given what stands in the file. The numbers come rounded as they are
/// written. Where nothing is to be written the file stays untouched.
pub fn write_tags(ac: &Acoustic, now: &AcousticTags, overwrite: bool) -> (r: Vec<TagWrite>)
    ensures
        tags::write_views(r@) == due_tags(ac@, *now, overwrite),
{
    let mut out: Vec<TagWrite> = Vec::new();
    assert(tags::write_views(out@) =~= Seq::<(Seq<char>, Seq<char>)>::empty());
    push_due(&mut out, "BPM", &ac.bpm, now.bpm.as_str(), overwrite);
    push_due(&mut out, "INITIALKEY", &ac.key, now.key.as_str(), overwrite);
    push_due(&mut out, "MOOD", &ac.mood, now.mood.as_str(), overwrite);
    push_due(&mut out, "ENERGY", &ac.energy, now.energy.as_str(), overwrite);
    out
}

} // verus!
