//! Loudness of files, as the fingerprinter measures it.

use crate::config::Config;
use crate::json;
use crate::json::{Json, JsonView};
use crate::net;
use crate::net::{Body, BodyView, Reply, Request};
use crate::state;
use crate::text;
use vstd::prelude::*;

verus! {

/// The key under which the loudness of a file is kept.
pub fn loudness_key(path: &str) -> (r: String)
    ensures
        r@ == "rg:"@ + state::hex(state::hashed_text(path@) as nat, 16),
{
    text::join_two("rg:", state::format_hex16(state::fnv1a64(path)).as_str())
}

/// The question for the loudness of a file; none where nobody can be asked.
pub fn replaygain_for(cfg: &Config, path: &str) -> (r: Option<Request>)
    ensures
        match r {
            Some(q) => text::said(cfg.acoustid_url@) && q@ == net::posting(
                text::strip_back(cfg.acoustid_url@, text::among("/"@)) + "/replaygain"@,
                Seq::empty(),
                BodyView::Tree(JsonView::Object(seq![("path"@, JsonView::Str(path@))])),
                30_000,
            ),
            None => !text::said(cfg.acoustid_url@),
        },
{
    if !text::is_said(cfg.acoustid_url.as_str()) {
        return None;
    }
    let mut body: Vec<(String, Json)> = Vec::new();
    json::put(&mut body, "path", json::string(path));
    assert(json::members(body@) =~= seq![("path"@, JsonView::Str(path@))]);
    Some(
        net::post(
            text::join_two(
                text::trim_back(cfg.acoustid_url.as_str(), "/").as_str(),
                "/replaygain",
            ),
            net::no_headers(),
            Body::Tree(Json::Object(body)),
            30_000,
        ),
    )
}

/// Loudness and peak, as texts of numbers: the loudness is there, the peak may be.
pub open spec fn loudness_of(v: Option<JsonView>) -> Option<(Seq<char>, Option<Seq<char>>)> {
    match json::number_text(json::member_opt(v, "integrated"@)) {
        Some(n) => Some((n, json::number_text(json::member_opt(v, "peak"@)))),
        None => None,
    }
}

pub open spec fn loudness_view(l: Option<(String, Option<String>)>) -> Option<
    (Seq<char>, Option<Seq<char>>),
> {
    match l {
        Some(p) => Some((p.0@, text::view_opt(p.1))),
        None => None,
    }
}

fn read_loudness(v: Option<&Json>) -> (r: Option<(String, Option<String>)>)
    ensures
        loudness_view(r) == loudness_of(json::shown(v)),
{
    match json::number_value(json::get_opt(v, "integrated")) {
        Some(n) => Some((n, json::number_value(json::get_opt(v, "peak")))),
        None => None,
    }
}

/// The loudness that was kept.
pub fn kept_loudness(stored: &Option<Json>) -> (r: Option<(String, Option<String>)>)
    ensures
        loudness_view(r) == loudness_of(json::doc_view(*stored)),
{
    read_loudness(json::root(stored))
}

/// The loudness of an answer, where the measuring went well.
pub open spec fn measured(answer: Option<JsonView>) -> Option<(Seq<char>, Option<Seq<char>>)> {
    if json::bool_of(json::member_opt(answer, "ok"@)) == Some(true) {
        loudness_of(json::member_opt(answer, "replaygain"@))
    } else {
        None
    }
}

/// The loudness that an answer gives, given what it reads as.
pub fn answered_loudness(answer: &Option<Json>) -> (r: Option<(String, Option<String>)>)
    ensures
        loudness_view(r) == measured(json::doc_view(*answer)),
{
    let root = json::root(answer);
    match json::bool_value(json::get_opt(root, "ok")) {
        Some(true) => read_loudness(json::get_opt(root, "replaygain")),
        _ => None,
    }
}

/// The loudness that a reply gives.
pub fn loudness(reply: &Reply) -> (r: Option<(String, Option<String>)>)
    ensures
        loudness_view(r) == match net::good_body(reply@) {
            Some(body) => measured(json::document(body)),
            None => None,
        },
{
    match net::ok_body(reply) {
        Some(body) => answered_loudness(&json::parse(body.as_str())),
        None => None,
    }
}

} // verus!
