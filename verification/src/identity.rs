//! How far a file's place in its album can be trusted.
//!
//! Names alone can be wrong. A file is trusted when it carries a MusicBrainz ID or an ISRC; a
//! matching fingerprint gives some confidence to a file that carries neither.

use crate::fraction::Fraction;
use crate::tags::{TagsView, TrackTags};
use crate::text;
use vstd::prelude::*;

verus! {

/// Whether a file is trusted.
#[derive(Debug, Clone, Copy, PartialEq, Eq, Structural)]
pub enum Confidence {
    Verified,
    Unverified,
}

/// Whether a file carries an identifier.
pub open spec fn identified(t: TagsView) -> bool {
    text::said(t.mbid_album) || text::said(t.mbid_recording) || text::said(t.mbid_artist) || text::said(t.isrc)
}

/// The identity score, from nought to one:
///   - album ID and recording or artist ID: 1
///   - any one MusicBrainz ID: 9/10
///   - ISRC alone: 17/20
///   - a matching fingerprint: 1/2, and half of how sure the match is
///   - nothing: 1/5
pub open spec fn scored(t: TagsView, acoustid: Option<Fraction>) -> Fraction {
    if text::said(t.mbid_album) && (text::said(t.mbid_recording) || text::said(t.mbid_artist)) {
        Fraction { num: 1, den: 1 }
    } else if text::said(t.mbid_album) || text::said(t.mbid_recording) || text::said(t.mbid_artist) {
        Fraction { num: 9, den: 10 }
    } else if text::said(t.isrc) {
        Fraction { num: 17, den: 20 }
    } else {
        match acoustid {
            Some(c) => {
                let sure = c.within_one();
                Fraction { num: (sure.den + sure.num) as i64, den: (2 * sure.den) as i64 }
            },
            None => Fraction { num: 1, den: 5 },
        }
    }
}

/// A match of a fingerprint is a fraction whose denominator can be doubled.
pub open spec fn sound_match(acoustid: Option<Fraction>) -> bool {
    acoustid matches Some(c) ==> c.wf() && 2 * c.den <= i64::MAX
}

/// The identity score of a file.
pub fn score(t: &TrackTags, acoustid_conf: Option<Fraction>) -> (r: Fraction)
    requires
        sound_match(acoustid_conf),
    ensures
        r == scored(t@, acoustid_conf),
        r.wf(),
        0 < r.num <= r.den,
{
    let album = text::is_said(t.mbid_album.as_str());
    let recording = text::is_said(t.mbid_recording.as_str());
    let artist = text::is_said(t.mbid_artist.as_str());
    if album && (recording || artist) {
        return Fraction { num: 1, den: 1 };
    }
    if album || recording || artist {
        return Fraction { num: 9, den: 10 };
    }
    if text::is_said(t.isrc.as_str()) {
        return Fraction { num: 17, den: 20 };
    }
    match acoustid_conf {
        Some(c) => {
            let sure = c.clamp_one();
            Fraction { num: sure.den + sure.num, den: 2 * sure.den }
        },
        None => Fraction { num: 1, den: 5 },
    }
}

/// Whether a file is trusted at a threshold, which counts as nought or one where it lies beyond.
pub fn is_verified(t: &TrackTags, min_confidence: Fraction, acoustid_conf: Option<Fraction>) -> (r:
    bool)
    requires
        min_confidence.wf(),
        sound_match(acoustid_conf),
    ensures
        r == scored(t@, acoustid_conf).reaches(min_confidence.within_one()),
{
    score(t, acoustid_conf).ge(&min_confidence.clamp_one())
}

/// The threshold of the plain judgement.
pub open spec fn fair() -> Fraction {
    Fraction { num: 3, den: 5 }
}

/// The plain judgement: trusted from three fifths on.
pub fn confidence(t: &TrackTags) -> (r: Confidence)
    ensures
        r == if scored(t@, None).reaches(fair()) {
            Confidence::Verified
        } else {
            Confidence::Unverified
        },
{
    if score(t, None).ge(&Fraction { num: 3, den: 5 }) {
        Confidence::Verified
    } else {
        Confidence::Unverified
    }
}

// ---------------------------------------------------------------------------
// Laws

/// A file that carries an identifier is trusted, one without is not.
pub proof fn identifiers_decide(t: TagsView)
    ensures
        scored(t, None).reaches(fair()) <==> identified(t),
{
}

/// Names have no part in the score.
pub proof fn names_do_not_count(a: TagsView, b: TagsView, acoustid: Option<Fraction>)
    requires
        a.mbid_album == b.mbid_album,
        a.mbid_recording == b.mbid_recording,
        a.mbid_artist == b.mbid_artist,
        a.isrc == b.isrc,
    ensures
        scored(a, acoustid) == scored(b, acoustid),
{
}

/// A surer match of the fingerprint never lowers the score.
pub proof fn surer_matches_score_higher(t: TagsView, a: Fraction, b: Fraction)
    requires
        sound_match(Some(a)),
        sound_match(Some(b)),
        b.reaches(a),
    ensures
        scored(t, Some(b)).reaches(scored(t, Some(a))),
{
    let x = a.within_one();
    let y = b.within_one();
    assert(y.num * x.den >= x.num * y.den) by (nonlinear_arith)
        requires
            b.num * a.den >= a.num * b.den,
            a.den > 0,
            b.den > 0,
            x == a.within_one(),
            y == b.within_one(),
    ;
    assert((y.den + y.num) * (2 * x.den) >= (x.den + x.num) * (2 * y.den)) by (nonlinear_arith)
        requires
            y.num * x.den >= x.num * y.den,
    ;
}

/// A file without any sign of its identity is trusted by no threshold above a fifth.
pub proof fn nothing_is_not_trusted(t: TagsView, min_confidence: Fraction)
    requires
        !identified(t),
        min_confidence.wf(),
        5 * min_confidence.num > min_confidence.den,
    ensures
        !scored(t, None).reaches(min_confidence.within_one()),
{
}

} // verus!
