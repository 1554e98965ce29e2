//! Embedded tags: what is read out of a file and when a tag may be written.

use crate::text;
use vstd::prelude::*;

verus! {

/// Recording source of a track. A live or bootleg recording is distinct from the studio
/// release and must never be merged with it or overwritten by it.
#[derive(Debug, Clone, Copy, PartialEq, Eq, Structural)]
pub enum Recording {
    Studio,
    Live,
    Bootleg,
    /// Of an album: the tracks disagree on the recording source.
    Mixed,
}

impl Default for Recording {
    fn default() -> (r: Self)
        ensures
            r == Recording::Studio,
    {
        Recording::Studio
    }
}

impl Recording {
    /// The label of a recording source, empty for the studio.
    pub open spec fn label(self) -> Seq<char> {
        match self {
            Recording::Studio => ""@,
            Recording::Live => "Live"@,
            Recording::Bootleg => "Bootleg"@,
            Recording::Mixed => "Mixed"@,
        }
    }

    pub fn as_str(&self) -> (r: &'static str)
        ensures
            r@ == self.label(),
    {
        match self {
            Recording::Studio => "",
            Recording::Live => "Live",
            Recording::Bootleg => "Bootleg",
            Recording::Mixed => "Mixed",
        }
    }
}

/// The tags of one audio file.
#[derive(Debug, Clone)]
pub struct TrackTags {
    pub title: String,
    pub artist: String,
    pub album_artist: String,
    pub album: String,
    pub year: Option<u32>,
    pub track: Option<u32>,
    pub disc: Option<u32>,
    pub genre: String,
    pub recording: Recording,
    pub isrc: String,
    pub mbid_recording: String,
    pub mbid_album: String,
    pub mbid_artist: String,
}

/// The mathematical value of the tags of a file.
#[verifier::ext_equal]
pub struct TagsView {
    pub title: Seq<char>,
    pub artist: Seq<char>,
    pub album_artist: Seq<char>,
    pub album: Seq<char>,
    pub year: Option<u32>,
    pub track: Option<u32>,
    pub disc: Option<u32>,
    pub genre: Seq<char>,
    pub recording: Recording,
    pub isrc: Seq<char>,
    pub mbid_recording: Seq<char>,
    pub mbid_album: Seq<char>,
    pub mbid_artist: Seq<char>,
}

impl View for TrackTags {
    type V = TagsView;

    open spec fn view(&self) -> TagsView {
        TagsView {
            title: self.title@,
            artist: self.artist@,
            album_artist: self.album_artist@,
            album: self.album@,
            year: self.year,
            track: self.track,
            disc: self.disc,
            genre: self.genre@,
            recording: self.recording,
            isrc: self.isrc@,
            mbid_recording: self.mbid_recording@,
            mbid_album: self.mbid_album@,
            mbid_artist: self.mbid_artist@,
        }
    }
}

/// No tags at all.
pub open spec fn no_tags() -> TagsView {
    TagsView {
        title: Seq::empty(),
        artist: Seq::empty(),
        album_artist: Seq::empty(),
        album: Seq::empty(),
        year: None,
        track: None,
        disc: None,
        genre: Seq::empty(),
        recording: Recording::Studio,
        isrc: Seq::empty(),
        mbid_recording: Seq::empty(),
        mbid_album: Seq::empty(),
        mbid_artist: Seq::empty(),
    }
}

impl Default for TrackTags {
    fn default() -> (r: Self)
        ensures
            r@ == no_tags(),
    {
        TrackTags {
            title: String::new(),
            artist: String::new(),
            album_artist: String::new(),
            album: String::new(),
            year: None,
            track: None,
            disc: None,
            genre: String::new(),
            recording: Recording::Studio,
            isrc: String::new(),
            mbid_recording: String::new(),
            mbid_album: String::new(),
            mbid_artist: String::new(),
        }
    }
}

/// A free-form tag item: its own key and its text.
#[derive(Debug)]
pub struct TagItem {
    pub key: String,
    pub value: String,
}

/// Whether a text marks a bootleg.
pub open spec fn says_bootleg(s: Seq<char>) -> bool {
    text::has(text::lowered(s), "bootleg"@)
}

/// Whether a title marks a live recording.
pub open spec fn says_live(s: Seq<char>) -> bool {
    let t = text::lowered(s);
    text::has(t, "(live"@) || text::has(t, "[live"@) || text::has(t, "live at"@) || text::has(
        t,
        " live "@,
    )
}

/// Whether the value of a marker tag switches it on; an empty value does.
pub open spec fn truthy(value: Seq<char>) -> bool {
    let v = text::lowered(text::trimmed(value));
    v.len() == 0 || v == "1"@ || v == "true"@ || v == "yes"@ || v == "y"@ || v == "live"@ || v
        == "bootleg"@
}

/// Whether a free-form item marks a bootleg.
pub open spec fn bootleg_item(item: TagItem) -> bool {
    says_bootleg(item.key@) && truthy(item.value@)
}

/// Whether a free-form item marks a live recording.
pub open spec fn live_item(item: TagItem) -> bool {
    text::has(text::lowered(item.key@), "live"@) && !says_bootleg(item.key@) && truthy(item.value@)
}

/// Whether anything marks a bootleg.
pub open spec fn marked_bootleg(
    items: Seq<TagItem>,
    title: Seq<char>,
    album: Seq<char>,
    genre: Seq<char>,
) -> bool {
    ||| says_bootleg(genre)
    ||| says_bootleg(title)
    ||| says_bootleg(album)
    ||| exists|i: int| 0 <= i < items.len() && bootleg_item(#[trigger] items[i])
}

/// The recording source: any bootleg marker wins over any live marker.
pub open spec fn recording_of(
    items: Seq<TagItem>,
    title: Seq<char>,
    album: Seq<char>,
    genre: Seq<char>,
) -> Recording {
    if marked_bootleg(items, title, album, genre) {
        Recording::Bootleg
    } else if text::has(text::lowered(genre), "live"@) || says_live(title) || says_live(album) || (
    exists|i: int| 0 <= i < items.len() && live_item(#[trigger] items[i])) {
        Recording::Live
    } else {
        Recording::Studio
    }
}

fn has_bootleg(s: &str) -> (r: bool)
    ensures
        r == says_bootleg(s@),
{
    let t = text::lower(s);
    text::contains(t.as_str(), "bootleg")
}

fn has_live(s: &str) -> (r: bool)
    ensures
        r == says_live(s@),
{
    let low = text::lower(s);
    let t = low.as_str();
    text::contains(t, "(live") || text::contains(t, "[live") || text::contains(t, "live at")
        || text::contains(t, " live ")
}

fn is_truthy(value: &str) -> (r: bool)
    ensures
        r == truthy(value@),
{
    let t = text::trim(value);
    let low = text::lower(t.as_str());
    let v = low.as_str();
    text::length(v) == 0 || text::same(v, "1") || text::same(v, "true") || text::same(v, "yes")
        || text::same(v, "y") || text::same(v, "live") || text::same(v, "bootleg")
}

/// Detects the recording source from the tags. Bootleg wins over live. Markers: a genre that
/// holds "live" or "bootleg", a title or album with "(Live ...)", "[Live", "Live at" and the
/// like, and free-form LIVE or BOOTLEG items.
pub fn detect_recording(items: &Vec<TagItem>, title: &str, album: &str, genre: &str) -> (r:
    Recording)
    ensures
        r == recording_of(items@, title@, album@, genre@),
{
    if has_bootleg(genre) || has_bootleg(title) || has_bootleg(album) {
        return Recording::Bootleg;
    }
    let g = text::lower(genre);
    let texts_live: bool = text::contains(g.as_str(), "live") || has_live(title) || has_live(album);
    let mut live: bool = false;
    let mut bootleg: bool = false;
    let mut i: usize = 0;
    while i < items.len()
        invariant
            i <= items@.len(),
            bootleg == (exists|k: int| 0 <= k < i && bootleg_item(#[trigger] items@[k])),
            live == (exists|k: int| 0 <= k < i && live_item(#[trigger] items@[k])),
        decreases items@.len() - i,
    {
        let ghost item = items@[i as int];
        let low = text::lower(items[i].key.as_str());
        let key_live: bool = text::contains(low.as_str(), "live");
        let key_bootleg: bool = text::contains(low.as_str(), "bootleg");
        if (key_live || key_bootleg) && is_truthy(items[i].value.as_str()) {
            if key_bootleg {
                assert(bootleg_item(items@[i as int]));
                bootleg = true;
            } else {
                assert(live_item(items@[i as int]));
                live = true;
            }
        }
        i = i + 1;
    }
    if bootleg {
        Recording::Bootleg
    } else if texts_live || live {
        Recording::Live
    } else {
        Recording::Studio
    }
}

/// Whether a tag is (re)written: never where the value is unchanged, and over an existing value
/// only with `overwrite`.
pub fn should_write(existing: &str, new: &str, overwrite: bool) -> (r: bool)
    ensures
        r == writes(existing@, new@, overwrite),
{
    if text::same(existing, new) {
        return false;
    }
    if !overwrite && text::length(existing) > 0 {
        return false;
    }
    true
}

pub open spec fn writes(existing: Seq<char>, new: Seq<char>, overwrite: bool) -> bool {
    existing != new && (overwrite || existing.len() == 0)
}

/// Which of the two ids of a resolved identity are written into a file.
#[derive(Debug, Clone, Copy, PartialEq, Eq, Structural)]
pub struct IdWrites {
    pub album: bool,
    pub recording: bool,
}

/// Decides on writing a resolved identity: nothing without an album id or where the album id
/// stays as it is; the recording id only beside a written album id.
pub fn identity_writes(
    existing_album: &str,
    existing_recording: &str,
    album_mbid: &str,
    recording_mbid: Option<&str>,
    overwrite: bool,
) -> (r: IdWrites)
    ensures
        r.album == (album_mbid@.len() > 0 && writes(existing_album@, album_mbid@, overwrite)),
        r.recording == (r.album && match recording_mbid {
            Some(rec) => rec@.len() > 0 && writes(existing_recording@, rec@, overwrite),
            None => false,
        }),
{
    if text::length(album_mbid) == 0 || !should_write(existing_album, album_mbid, overwrite) {
        return IdWrites { album: false, recording: false };
    }
    let recording: bool = match recording_mbid {
        Some(rec) => text::length(rec) > 0 && should_write(existing_recording, rec, overwrite),
        None => false,
    };
    IdWrites { album: true, recording }
}

/// A rating in half stars as text: whole stars without a point, half stars with `.5`.
pub open spec fn stars_shown(half: int) -> Seq<char> {
    if half % 2 == 0 {
        text::decimal_int(half / 2)
    } else {
        text::decimal_int(half / 2) + ".5"@
    }
}

pub fn stars_text(half: u8) -> (r: String)
    ensures
        r@ == stars_shown(half as int),
{
    let mut out = text::format_nat((half / 2) as u64);
    if half % 2 != 0 {
        out.append(".5");
    }
    out
}

/// The playback values that are already in a file.
#[derive(Debug)]
pub struct PlaybackTags {
    pub playcount: String,
    pub rating: String,
    pub loved: String,
}

/// One tag to write.
#[derive(Debug)]
pub struct TagWrite {
    pub key: String,
    pub value: String,
}

/// A list of writes, as pairs of key and value.
pub open spec fn write_views(v: Seq<TagWrite>) -> Seq<(Seq<char>, Seq<char>)> {
    Seq::new(v.len(), |i: int| (v[i].key@, v[i].value@))
}

/// The write of one tag, where it is due.
pub open spec fn due(
    wanted: bool,
    key: Seq<char>,
    existing: Seq<char>,
    value: Seq<char>,
    overwrite: bool,
) -> Seq<(Seq<char>, Seq<char>)> {
    if wanted && writes(existing, value, overwrite) {
        seq![(key, value)]
    } else {
        Seq::empty()
    }
}

fn push_due(
    out: &mut Vec<TagWrite>,
    wanted: bool,
    key: &str,
    existing: &str,
    value: &str,
    overwrite: bool,
)
    ensures
        write_views(final(out)@) == write_views(old(out)@) + due(
            wanted,
            key@,
            existing@,
            value@,
            overwrite,
        ),
{
    if wanted && should_write(existing, value, overwrite) {
        out.push(TagWrite { key: text::copy(key), value: text::copy(value) });
    }
    assert(write_views(out@) == write_views(old(out)@) + due(
        wanted,
        key@,
        existing@,
        value@,
        overwrite,
    ));
}

pub open spec fn loved_mark(loved: Option<bool>) -> Seq<char> {
    if loved == Some(true) {
        "1"@
    } else {
        "0"@
    }
}

/// The playback tags to write: a positive playcount, the rating (in half stars), the loved mark,
/// each under the fill-only or overwrite policy.
pub fn playback_writes(
    existing: &PlaybackTags,
    half_stars: Option<u8>,
    playcount: i64,
    loved: Option<bool>,
    overwrite: bool,
) -> (r: Vec<TagWrite>)
    ensures
        write_views(r@) == due(
            playcount > 0,
            "FMPS_PLAYCOUNT"@,
            existing.playcount@,
            text::decimal_int(playcount as int),
            overwrite,
        ) + due(
            half_stars is Some,
            "RATING"@,
            existing.rating@,
            stars_shown(
                match half_stars {
                    Some(h) => h as int,
                    None => 0,
                },
            ),
            overwrite,
        ) + due(loved is Some, "LOVED"@, existing.loved@, loved_mark(loved), overwrite),
{
    let mut out: Vec<TagWrite> = Vec::new();
    let count = text::format_int(playcount);
    push_due(
        &mut out,
        playcount > 0,
        "FMPS_PLAYCOUNT",
        existing.playcount.as_str(),
        count.as_str(),
        overwrite,
    );
    let stars: String = match half_stars {
        Some(h) => stars_text(h),
        None => stars_text(0),
    };
    push_due(
        &mut out,
        half_stars.is_some(),
        "RATING",
        existing.rating.as_str(),
        stars.as_str(),
        overwrite,
    );
    let mark: &str = match loved {
        Some(true) => "1",
        _ => "0",
    };
    push_due(&mut out, loved.is_some(), "LOVED", existing.loved.as_str(), mark, overwrite);
    proof {
        let empty = Seq::<(Seq<char>, Seq<char>)>::empty();
        let first = due(
            playcount > 0,
            "FMPS_PLAYCOUNT"@,
            existing.playcount@,
            text::decimal_int(playcount as int),
            overwrite,
        );
        assert(empty + first == first);
        assert(write_views(Seq::<TagWrite>::empty()) == empty);
    }
    out
}

/// The name of the sibling that a file is written to before it replaces the file.
pub fn temp_name(name: &str) -> (r: String)
    ensures
        r@ == "."@ + name@ + ".ndtmp"@,
{
    let mut out = text::copy(".");
    out.append(name);
    out.append(".ndtmp");
    out
}

/// Writing what is already there is never due, and without `overwrite` an existing value is
/// kept: writing twice writes once.
pub proof fn writing_is_idempotent(existing: Seq<char>, new: Seq<char>, overwrite: bool)
    ensures
        !writes(new, new, overwrite),
        existing.len() > 0 ==> !writes(existing, new, false),
{
}

/// A bootleg marker always wins over live markers.
pub proof fn bootleg_wins(items: Seq<TagItem>, title: Seq<char>, album: Seq<char>, genre: Seq<char>)
    requires
        marked_bootleg(items, title, album, genre),
    ensures
        recording_of(items, title, album, genre) == Recording::Bootleg,
{
}

} // verus!
