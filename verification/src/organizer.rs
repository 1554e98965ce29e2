//! Albums: what they are made of, how they are classified, and where their files belong.
//!
//! Paths are relative to the library root and use `/`. What is on disk is handed in as plain
//! values, so that every rule here is a function of its arguments.

use crate::config::Config;
use crate::nfo::{AlbumNfoView, ArtistNfoView, NfoAlbum, NfoArtist};
use crate::order;
use crate::tags::{Recording, TagsView, TrackTags};
use crate::template;
use crate::template::{FieldsView, SanitizeOptions, TemplateFields};
use crate::text;
use vstd::prelude::*;

verus! {

#[derive(Debug, Clone, Copy, PartialEq, Eq, Structural)]
pub enum Bucket {
    Soundtrack,
    Various,
    Singles,
    Normal,
}

impl Default for Bucket {
    fn default() -> (r: Self)
        ensures
            r == Bucket::Normal,
    {
        Bucket::Normal
    }
}

/// An audio file of an album folder; its tags are read on demand.
#[derive(Debug, Clone)]
pub struct TrackEntry {
    pub name: String,
    pub tags: Option<TrackTags>,
}

/// A folder that holds at least one audio file.
#[derive(Debug, Clone)]
pub struct AlbumDir {
    /// Path relative to the library root, empty for the root itself.
    pub dir: String,
    pub tracks: Vec<TrackEntry>,
}

/// What is known of an album as a whole.
#[derive(Debug, Clone)]
pub struct AlbumInfo {
    pub album: String,
    pub album_artist: String,
    pub year: Option<u32>,
    pub genre: String,
    pub track_count: usize,
    pub distinct_artists: Vec<String>,
    /// The recording source of all tracks, `Mixed` where they disagree.
    pub recording: Recording,
    /// MusicBrainz release type ("Soundtrack", "Compilation", "Single"), empty where unknown.
    pub release_type: String,
}

/// The mathematical value of an album's information.
#[verifier::ext_equal]
pub struct InfoView {
    pub album: Seq<char>,
    pub album_artist: Seq<char>,
    pub year: Option<u32>,
    pub genre: Seq<char>,
    pub track_count: nat,
    pub distinct_artists: Seq<Seq<char>>,
    pub recording: Recording,
    pub release_type: Seq<char>,
}

impl View for AlbumInfo {
    type V = InfoView;

    open spec fn view(&self) -> InfoView {
        InfoView {
            album: self.album@,
            album_artist: self.album_artist@,
            year: self.year,
            genre: self.genre@,
            track_count: self.track_count as nat,
            distinct_artists: text::views(self.distinct_artists@),
            recording: self.recording,
            release_type: self.release_type@,
        }
    }
}

// ---------------------------------------------------------------------------
// Names

/// The name without what follows its last dot.
pub open spec fn stem(name: Seq<char>) -> Seq<char> {
    match text::found_last(name, "."@) {
        Some(i) => name.take(i),
        None => name,
    }
}

/// What follows the last dot of a name, in lower case.
pub open spec fn extension(name: Seq<char>) -> Seq<char> {
    match text::found_last(name, "."@) {
        Some(i) => text::lowered(name.skip(i + 1)),
        None => Seq::empty(),
    }
}

/// What follows the last slash of a path.
pub open spec fn last_part(path: Seq<char>) -> Seq<char> {
    match text::found_last(path, "/"@) {
        Some(i) => path.skip(i + 1),
        None => path,
    }
}

/// What stands before the last slash of a path, empty where there is none.
pub open spec fn parent(path: Seq<char>) -> Seq<char> {
    match text::found_last(path, "/"@) {
        Some(i) => path.take(i),
        None => Seq::empty(),
    }
}

/// Equal but for the case of ASCII letters.
pub open spec fn same_but_case(a: Seq<char>, b: Seq<char>) -> bool {
    text::lowered(a) == text::lowered(b)
}

pub fn stem_of(name: &str) -> (r: String)
    ensures
        r@ == stem(name@),
{
    match text::find_last(name, ".") {
        Some(i) => {
            let r = text::slice(name, 0, i);
            assert(r@ == name@.take(i as int));
            r
        },
        None => text::copy(name),
    }
}

pub fn extension_of(name: &str) -> (r: String)
    ensures
        r@ == extension(name@),
{
    match text::find_last(name, ".") {
        Some(i) => {
            proof {
                reveal_strlit(".");
            }
            let n: usize = text::length(name);
            let tail = text::slice(name, i + 1, n);
            assert(tail@ == name@.skip(i + 1));
            text::lower(tail.as_str())
        },
        None => String::new(),
    }
}

pub fn last_part_of(path: &str) -> (r: String)
    ensures
        r@ == last_part(path@),
{
    match text::find_last(path, "/") {
        Some(i) => {
            proof {
                reveal_strlit("/");
            }
            let n: usize = text::length(path);
            let tail = text::slice(path, i + 1, n);
            assert(tail@ == path@.skip(i + 1));
            tail
        },
        None => text::copy(path),
    }
}

pub fn parent_of(path: &str) -> (r: String)
    ensures
        r@ == parent(path@),
{
    match text::find_last(path, "/") {
        Some(i) => {
            let r = text::slice(path, 0, i);
            assert(r@ == path@.take(i as int));
            r
        },
        None => String::new(),
    }
}

pub fn equal_but_case(a: &str, b: &str) -> (r: bool)
    ensures
        r == same_but_case(a@, b@),
{
    let x = text::lower(a);
    let y = text::lower(b);
    text::same(x.as_str(), y.as_str())
}

/// `name` inside `dir`.
pub open spec fn joined_rel(dir: Seq<char>, name: Seq<char>) -> Seq<char> {
    if dir.len() == 0 {
        name
    } else {
        dir + "/"@ + name
    }
}

pub fn join_rel(dir: &str, name: &str) -> (r: String)
    ensures
        r@ == joined_rel(dir@, name@),
{
    if text::length(dir) == 0 {
        text::copy(name)
    } else {
        let mut out = text::copy(dir);
        out.append("/");
        out.append(name);
        out
    }
}

/// Whether the path is what a pattern names or lies beneath it. A pattern is a folder or a
/// folder followed by `/*`.
pub open spec fn covers(pattern: Seq<char>, rel: Seq<char>) -> bool {
    let p = text::strip_back(pattern, text::among("/"@));
    let base = if text::ends(p, "/*"@) {
        p.take(p.len() - 2)
    } else {
        p
    };
    rel == base || text::begins(rel, base + "/"@)
}

/// Whether a folder is covered by an exclusion pattern.
pub fn is_excluded(rel: &str, excludes: &[String]) -> (r: bool)
    ensures
        r == exists|i: int| 0 <= i < excludes@.len() && covers((#[trigger] excludes@[i])@, rel@),
{
    let mut i: usize = 0;
    while i < excludes.len()
        invariant
            i <= excludes@.len(),
            forall|k: int| 0 <= k < i ==> !covers((#[trigger] excludes@[k])@, rel@),
        decreases excludes@.len() - i,
    {
        let p = text::trim_back(excludes[i].as_str(), "/");
        let base: String = if text::ends_with(p.as_str(), "/*") {
            proof {
                reveal_strlit("/*");
            }
            let n: usize = text::length(p.as_str());
            let b = text::slice(p.as_str(), 0, n - 2);
            assert(b@ == p@.take(p@.len() - 2));
            b
        } else {
            p
        };
        let mut inside = base.clone();
        inside.append("/");
        if text::same(rel, base.as_str()) || text::starts_with(rel, inside.as_str()) {
            assert(covers(excludes@[i as int]@, rel@));
            return true;
        }
        i = i + 1;
    }
    false
}

/// An excluded folder takes everything beneath it along.
pub proof fn exclusion_covers_everything_beneath(
    pattern: Seq<char>,
    rel: Seq<char>,
    name: Seq<char>,
)
    requires
        covers(pattern, rel),
    ensures
        covers(pattern, rel + "/"@ + name),
{
    let p = text::strip_back(pattern, text::among("/"@));
    let base = if text::ends(p, "/*"@) {
        p.take(p.len() - 2)
    } else {
        p
    };
    let inside = base + "/"@;
    let below = rel + "/"@ + name;
    if rel == base {
        assert(below.subrange(0, inside.len() as int) == inside);
    } else {
        assert(below.subrange(0, inside.len() as int) == rel.subrange(0, inside.len() as int));
    }
}

/// How names are sanitized under a configuration.
pub open spec fn options(cfg: Config) -> SanitizeOptions {
    SanitizeOptions {
        illegal_char_replacement: if cfg.illegal_char_replacement@.len() > 0 {
            cfg.illegal_char_replacement@[0]
        } else {
            '_'
        },
        max_name_length: if cfg.max_name_length < 1 {
            1
        } else {
            cfg.max_name_length
        },
    }
}

pub fn sanitize_opts(cfg: &Config) -> (r: SanitizeOptions)
    ensures
        r == options(*cfg),
{
    let v = text::chars_of(cfg.illegal_char_replacement.as_str());
    SanitizeOptions {
        illegal_char_replacement: if v.len() > 0 {
            v[0]
        } else {
            '_'
        },
        max_name_length: if cfg.max_name_length < 1 {
            1
        } else {
            cfg.max_name_length
        },
    }
}

/// The extensions of audio files.
pub open spec fn audio_extensions() -> Seq<Seq<char>> {
    seq![
        "mp3"@,
        "flac"@,
        "m4a"@,
        "aac"@,
        "ogg"@,
        "oga"@,
        "opus"@,
        "wav"@,
        "wv"@,
        "aiff"@,
        "aif"@,
        "ape"@,
        "mpc"@,
    ]
}

/// The extensions of files that accompany a track.
pub open spec fn sidecar_extensions() -> Seq<Seq<char>> {
    seq!["lrc"@, "jpg"@, "jpeg"@, "png"@, "nfo"@, "cue"@]
}

/// Files that belong to an album folder as a whole.
pub open spec fn folder_sidecars() -> Seq<Seq<char>> {
    seq![
        "album.nfo"@,
        "artist.nfo"@,
        "cover.jpg"@,
        "cover.png"@,
        "cover.jpeg"@,
        "folder.jpg"@,
        "folder.png"@,
        "front.jpg"@,
        "front.png"@,
        "back.jpg"@,
        "back.png"@,
        "cd.jpg"@,
        "cd.png"@,
    ]
}

/// Whether a text is one of a list.
fn listed(s: &str, list: &Vec<&'static str>) -> (r: bool)
    ensures
        r == exists|i: int| 0 <= i < list@.len() && (#[trigger] list@[i])@ == s@,
{
    let mut i: usize = 0;
    while i < list.len()
        invariant
            i <= list@.len(),
            forall|k: int| 0 <= k < i ==> (#[trigger] list@[k])@ != s@,
        decreases list@.len() - i,
    {
        if text::same(list[i], s) {
            return true;
        }
        i = i + 1;
    }
    false
}

/// Whether a file is audio, by its extension.
pub open spec fn audio(name: Seq<char>) -> bool {
    text::found_last(name, "."@) is Some && audio_extensions().contains(extension(name))
}

/// Whether a file accompanies a track, by its extension.
pub open spec fn sidecar(name: Seq<char>) -> bool {
    text::found_last(name, "."@) is Some && sidecar_extensions().contains(extension(name))
}

/// Whether a file belongs to an album folder as a whole, in any case.
pub open spec fn folder_sidecar(name: Seq<char>) -> bool {
    folder_sidecars().contains(text::lowered(name))
}

/// Recognizes audio files by extension.
pub fn is_audio(name: &str) -> (r: bool)
    ensures
        r == audio(name@),
{
    let list: Vec<&'static str> = vec![
        "mp3", "flac", "m4a", "aac", "ogg", "oga", "opus", "wav", "wv", "aiff", "aif", "ape", "mpc",
    ];
    proof {
        same_lists(list@, audio_extensions(), extension(name@));
    }
    let ext = extension_of(name);
    text::find_last(name, ".").is_some() && listed(ext.as_str(), &list)
}

/// Recognizes the files that accompany a track by extension.
pub fn is_sidecar(name: &str) -> (r: bool)
    ensures
        r == sidecar(name@),
{
    let list: Vec<&'static str> = vec!["lrc", "jpg", "jpeg", "png", "nfo", "cue"];
    proof {
        same_lists(list@, sidecar_extensions(), extension(name@));
    }
    let ext = extension_of(name);
    text::find_last(name, ".").is_some() && listed(ext.as_str(), &list)
}

/// Recognizes the files that belong to an album folder as a whole.
pub fn is_folder_sidecar(name: &str) -> (r: bool)
    ensures
        r == folder_sidecar(name@),
{
    let list: Vec<&'static str> = vec![
        "album.nfo", "artist.nfo", "cover.jpg", "cover.png", "cover.jpeg", "folder.jpg",
        "folder.png", "front.jpg", "front.png", "back.jpg", "back.png", "cd.jpg", "cd.png",
    ];
    proof {
        same_lists(list@, folder_sidecars(), text::lowered(name@));
    }
    let low = text::lower(name);
    listed(low.as_str(), &list)
}

proof fn same_lists(list: Seq<&'static str>, texts: Seq<Seq<char>>, s: Seq<char>)
    requires
        list.len() == texts.len(),
        forall|i: int| 0 <= i < list.len() ==> (#[trigger] list[i])@ == texts[i],
    ensures
        texts.contains(s) == (exists|i: int| 0 <= i < list.len() && (#[trigger] list[i])@ == s),
{
    if texts.contains(s) {
        let i = choose|i: int| 0 <= i < texts.len() && texts[i] == s;
        assert(list[i]@ == s);
    }
    if exists|i: int| 0 <= i < list.len() && (#[trigger] list[i])@ == s {
        let i = choose|i: int| 0 <= i < list.len() && (#[trigger] list[i])@ == s;
        assert(texts[i] == s);
    }
}

// ---------------------------------------------------------------------------
// Album information

/// The first text that is not empty.
pub open spec fn first_filled(v: Seq<Seq<char>>) -> Seq<char>
    decreases v.len(),
{
    if v.len() == 0 {
        Seq::empty()
    } else if v[0].len() > 0 {
        v[0]
    } else {
        first_filled(v.skip(1))
    }
}

/// The first number that is there.
pub open spec fn first_some(v: Seq<Option<u32>>) -> Option<u32>
    decreases v.len(),
{
    if v.len() == 0 {
        None
    } else if v[0] is Some {
        v[0]
    } else {
        first_some(v.skip(1))
    }
}

proof fn first_filled_push(v: Seq<Seq<char>>, x: Seq<char>)
    ensures
        first_filled(v.push(x)) == if first_filled(v).len() > 0 {
            first_filled(v)
        } else {
            x
        },
    decreases v.len(),
{
    if v.len() == 0 {
        assert(v.push(x).skip(1) == Seq::<Seq<char>>::empty());
        if x.len() == 0 {
            assert(first_filled(v.push(x).skip(1)) == x);
        }
    } else {
        assert(v.push(x).skip(1) == v.skip(1).push(x));
        first_filled_push(v.skip(1), x);
    }
}

proof fn first_some_push(v: Seq<Option<u32>>, x: Option<u32>)
    ensures
        first_some(v.push(x)) == if first_some(v) is Some {
            first_some(v)
        } else {
            x
        },
    decreases v.len(),
{
    if v.len() == 0 {
        assert(v.push(x).skip(1) == Seq::<Option<u32>>::empty());
        assert(first_some(v.push(x).skip(1)) is None);
    } else {
        assert(v.push(x).skip(1) == v.skip(1).push(x));
        first_some_push(v.skip(1), x);
    }
}

pub open spec fn albums(t: Seq<TagsView>) -> Seq<Seq<char>> {
    Seq::new(t.len(), |i: int| t[i].album)
}

pub open spec fn album_artists(t: Seq<TagsView>) -> Seq<Seq<char>> {
    Seq::new(t.len(), |i: int| t[i].album_artist)
}

pub open spec fn genres(t: Seq<TagsView>) -> Seq<Seq<char>> {
    Seq::new(t.len(), |i: int| t[i].genre)
}

pub open spec fn years(t: Seq<TagsView>) -> Seq<Option<u32>> {
    Seq::new(t.len(), |i: int| t[i].year)
}

/// Whether a name is among the given ones, but for case.
pub open spec fn known_name(names: Seq<Seq<char>>, name: Seq<char>) -> bool {
    exists|i: int| 0 <= i < names.len() && same_but_case(#[trigger] names[i], name)
}

/// The artists of the tracks, trimmed, each once but for case, in order of appearance.
pub open spec fn artists(t: Seq<TagsView>) -> Seq<Seq<char>>
    decreases t.len(),
{
    if t.len() == 0 {
        Seq::empty()
    } else {
        let before = artists(t.drop_last());
        let name = text::trimmed(t.last().artist);
        if name.len() == 0 || known_name(before, name) {
            before
        } else {
            before.push(name)
        }
    }
}

/// The recording source that all tracks share; the studio for no tracks, `Mixed` where they
/// disagree.
pub open spec fn common_recording(t: Seq<TagsView>) -> Recording {
    if t.len() == 0 {
        Recording::Studio
    } else if forall|i: int| 0 <= i < t.len() ==> (#[trigger] t[i]).recording == t[0].recording {
        t[0].recording
    } else {
        Recording::Mixed
    }
}

/// What the tags of the tracks say of an album with `count` tracks.
pub open spec fn info_of(t: Seq<TagsView>, count: nat) -> InfoView {
    InfoView {
        album: first_filled(albums(t)),
        album_artist: first_filled(album_artists(t)),
        year: first_some(years(t)),
        genre: first_filled(genres(t)),
        track_count: count,
        distinct_artists: artists(t),
        recording: common_recording(t),
        release_type: Seq::empty(),
    }
}

fn knows_name(names: &Vec<String>, name: &str) -> (r: bool)
    ensures
        r == known_name(text::views(names@), name@),
{
    let mut i: usize = 0;
    while i < names.len()
        invariant
            i <= names@.len(),
            forall|k: int| 0 <= k < i ==> !same_but_case(#[trigger] text::views(names@)[k], name@),
        decreases names@.len() - i,
    {
        assert(text::views(names@)[i as int] == names@[i as int]@);
        if equal_but_case(names[i].as_str(), name) {
            return true;
        }
        i = i + 1;
    }
    false
}

/// Album information while it is collected from track to track.
struct Collected {
    album: String,
    album_artist: String,
    year: Option<u32>,
    genre: String,
    artists: Vec<String>,
    recording: Recording,
    empty: bool,
}

impl Collected {
    spec fn holds(&self, t: Seq<TagsView>) -> bool {
        &&& self.album@ == first_filled(albums(t))
        &&& self.album_artist@ == first_filled(album_artists(t))
        &&& self.year == first_some(years(t))
        &&& self.genre@ == first_filled(genres(t))
        &&& text::views(self.artists@) == artists(t)
        &&& self.recording == common_recording(t)
        &&& self.empty == (t.len() == 0)
    }

    fn new() -> (r: Self)
        ensures
            r.holds(Seq::empty()),
    {
        let r = Collected {
            album: String::new(),
            album_artist: String::new(),
            year: None,
            genre: String::new(),
            artists: Vec::new(),
            recording: Recording::Studio,
            empty: true,
        };
        assert(text::views(r.artists@) == Seq::<Seq<char>>::empty());
        r
    }

    fn add_track(&mut self, t: &TrackTags, Ghost(seen): Ghost<Seq<TagsView>>)
        requires
            old(self).holds(seen),
        ensures
            final(self).holds(seen.push(t@)),
    {
        proof {
            let all = seen.push(t@);
            assert(albums(all) == albums(seen).push(t@.album));
            assert(album_artists(all) == album_artists(seen).push(t@.album_artist));
            assert(genres(all) == genres(seen).push(t@.genre));
            assert(years(all) == years(seen).push(t@.year));
            first_filled_push(albums(seen), t@.album);
            first_filled_push(album_artists(seen), t@.album_artist);
            first_filled_push(genres(seen), t@.genre);
            first_some_push(years(seen), t@.year);
            assert(all.drop_last() == seen);
            recording_push(seen, t@);
        }
        if text::length(self.album.as_str()) == 0 {
            self.album = t.album.clone();
        }
        if text::length(self.album_artist.as_str()) == 0 {
            self.album_artist = t.album_artist.clone();
        }
        if self.year.is_none() {
            self.year = t.year;
        }
        if text::length(self.genre.as_str()) == 0 {
            self.genre = t.genre.clone();
        }
        let name = text::trim(t.artist.as_str());
        if text::length(name.as_str()) > 0 && !knows_name(&self.artists, name.as_str()) {
            proof {
                text::views_push(self.artists@, name);
            }
            self.artists.push(name);
        }
        if self.empty {
            self.recording = t.recording;
            self.empty = false;
        } else if self.recording != t.recording {
            self.recording = Recording::Mixed;
        }
    }
}

proof fn recording_push(t: Seq<TagsView>, x: TagsView)
    ensures
        common_recording(t.push(x)) == if t.len() == 0 || common_recording(t) == x.recording {
            x.recording
        } else {
            Recording::Mixed
        },
{
    let all = t.push(x);
    if t.len() == 0 {
        assert forall|i: int| 0 <= i < all.len() implies (#[trigger] all[i]).recording
            == all[0].recording by {}
    } else {
        let uniform = forall|i: int| 0 <= i < t.len() ==> (#[trigger] t[i]).recording
            == t[0].recording;
        assert(all[t.len() as int] == x);
        assert(all[0] == t[0]);
        if uniform {
            if t[0].recording == x.recording {
                assert forall|i: int| 0 <= i < all.len() implies (#[trigger] all[i]).recording
                    == all[0].recording by {
                    if i < t.len() {
                        assert(all[i] == t[i]);
                    }
                }
            } else {
                assert(all[t.len() as int].recording != all[0].recording);
            }
        } else {
            let i = choose|i: int| 0 <= i < t.len() && (#[trigger] t[i]).recording != t[0].recording;
            assert(all[i].recording != all[0].recording);
        }
    }
}

/// The tags of the tracks that have any.
pub open spec fn tagged(tracks: Seq<TrackEntry>) -> Seq<TagsView>
    decreases tracks.len(),
{
    if tracks.len() == 0 {
        Seq::empty()
    } else {
        match tracks.last().tags {
            Some(t) => tagged(tracks.drop_last()).push(t@),
            None => tagged(tracks.drop_last()),
        }
    }
}

/// The tags of a list of files.
pub open spec fn file_tags(files: Seq<(String, TrackTags)>) -> Seq<TagsView> {
    Seq::new(files.len(), |i: int| files[i].1@)
}

/// Album information from embedded tags alone.
pub fn album_info_raw(album: &AlbumDir) -> (r: AlbumInfo)
    ensures
        r@ == info_of(tagged(album.tracks@), album.tracks@.len()),
{
    let mut c = Collected::new();
    let mut i: usize = 0;
    assert(album.tracks@.take(0) == Seq::<TrackEntry>::empty());
    while i < album.tracks.len()
        invariant
            i <= album.tracks@.len(),
            c.holds(tagged(album.tracks@.take(i as int))),
        decreases album.tracks@.len() - i,
    {
        proof {
            assert(album.tracks@.take(i + 1).drop_last() == album.tracks@.take(i as int));
            assert(album.tracks@.take(i + 1).last() == album.tracks@[i as int]);
        }
        match &album.tracks[i].tags {
            Some(t) => {
                c.add_track(t, Ghost(tagged(album.tracks@.take(i as int))));
            },
            None => {},
        }
        i = i + 1;
    }
    assert(album.tracks@.take(i as int) == album.tracks@);
    AlbumInfo {
        album: c.album,
        album_artist: c.album_artist,
        year: c.year,
        genre: c.genre,
        track_count: album.tracks.len(),
        distinct_artists: c.artists,
        recording: c.recording,
        release_type: String::new(),
    }
}

/// Album information from the tags of a group of files.
pub fn album_info_from_tags(files: &Vec<(String, TrackTags)>) -> (r: AlbumInfo)
    ensures
        r@ == info_of(file_tags(files@), files@.len()),
{
    let mut c = Collected::new();
    let mut i: usize = 0;
    assert(file_tags(files@).take(0) == Seq::<TagsView>::empty());
    while i < files.len()
        invariant
            i <= files@.len(),
            c.holds(file_tags(files@).take(i as int)),
        decreases files@.len() - i,
    {
        proof {
            assert(file_tags(files@).take(i + 1) == file_tags(files@).take(i as int).push(
                files@[i as int].1@,
            ));
        }
        c.add_track(&files[i].1, Ghost(file_tags(files@).take(i as int)));
        i = i + 1;
    }
    assert(file_tags(files@).take(i as int) == file_tags(files@));
    AlbumInfo {
        album: c.album,
        album_artist: c.album_artist,
        year: c.year,
        genre: c.genre,
        track_count: files.len(),
        distinct_artists: c.artists,
        recording: c.recording,
        release_type: String::new(),
    }
}

/// The first entry of the first list that has one.
pub open spec fn first_entry(a: Seq<Seq<char>>, b: Seq<Seq<char>>, c: Seq<Seq<char>>) -> Seq<char> {
    if a.len() > 0 {
        a[0]
    } else if b.len() > 0 {
        b[0]
    } else if c.len() > 0 {
        c[0]
    } else {
        Seq::empty()
    }
}

pub fn first_of(a: &Vec<String>, b: &Vec<String>, c: &Vec<String>) -> (r: String)
    ensures
        r@ == first_entry(text::views(a@), text::views(b@), text::views(c@)),
{
    if a.len() > 0 {
        a[0].clone()
    } else if b.len() > 0 {
        b[0].clone()
    } else if c.len() > 0 {
        c[0].clone()
    } else {
        String::new()
    }
}

/// `a`, or `b` where `a` is empty.
pub open spec fn or_else(a: Seq<char>, b: Seq<char>) -> Seq<char> {
    if a.len() > 0 {
        a
    } else {
        b
    }
}

/// The information with gaps filled from an album sidecar.
pub open spec fn with_album_nfo(i: InfoView, n: AlbumNfoView) -> InfoView {
    InfoView {
        album: or_else(i.album, n.title),
        album_artist: or_else(
            i.album_artist,
            if n.album_artists.len() > 0 {
                n.album_artists[0]
            } else {
                Seq::empty()
            },
        ),
        year: if i.year is Some {
            i.year
        } else {
            n.year
        },
        genre: or_else(i.genre, first_entry(n.genres, n.styles, n.moods)),
        ..i
    }
}

/// The information with gaps filled from an artist sidecar.
pub open spec fn with_artist_nfo(i: InfoView, n: ArtistNfoView) -> InfoView {
    InfoView {
        album_artist: or_else(i.album_artist, n.name),
        genre: or_else(i.genre, first_entry(n.genres, n.styles, n.moods)),
        ..i
    }
}

/// The information with the weakest fallbacks: the folder name for the album, the only artist
/// for the album artist.
pub open spec fn with_fallbacks(i: InfoView, folder: Seq<char>) -> InfoView {
    InfoView {
        album: or_else(i.album, folder),
        album_artist: if i.album_artist.len() == 0 && i.distinct_artists.len() == 1 {
            i.distinct_artists[0]
        } else {
            i.album_artist
        },
        ..i
    }
}

impl AlbumInfo {
    /// Fills empty fields from an `album.nfo`. Tags take priority; the sidecar only fills gaps.
    pub fn merge_album_nfo(&mut self, nfo: &NfoAlbum)
        ensures
            final(self)@ == with_album_nfo(old(self)@, nfo@),
    {
        if text::length(self.album.as_str()) == 0 {
            self.album = nfo.title.clone();
        }
        if text::length(self.album_artist.as_str()) == 0 {
            self.album_artist = if nfo.album_artists.len() > 0 {
                nfo.album_artists[0].clone()
            } else {
                String::new()
            };
        }
        if self.year.is_none() {
            self.year = nfo.year;
        }
        if text::length(self.genre.as_str()) == 0 {
            self.genre = first_of(&nfo.genres, &nfo.styles, &nfo.moods);
        }
    }

    /// Fills empty fields from an `artist.nfo`.
    pub fn merge_artist_nfo(&mut self, artist: &NfoArtist)
        ensures
            final(self)@ == with_artist_nfo(old(self)@, artist@),
    {
        if text::length(self.album_artist.as_str()) == 0 {
            self.album_artist = artist.name.clone();
        }
        if text::length(self.genre.as_str()) == 0 {
            self.genre = first_of(&artist.genres, &artist.styles, &artist.moods);
        }
    }

    /// Fills empty fields from the folder name and the only artist.
    pub fn apply_fallbacks(&mut self, folder: &str)
        ensures
            final(self)@ == with_fallbacks(old(self)@, folder@),
    {
        if text::length(self.album.as_str()) == 0 {
            self.album = text::copy(folder);
        }
        if text::length(self.album_artist.as_str()) == 0 && self.distinct_artists.len() == 1 {
            self.album_artist = self.distinct_artists[0].clone();
        }
    }
}

/// The name of a folder: the last part of its path.
pub fn folder_name(rel: &str) -> (r: String)
    ensures
        r@ == last_part(rel@),
{
    last_part_of(rel)
}

/// Album information from tags and folder name, without sidecars.
pub fn album_info(album: &AlbumDir) -> (r: AlbumInfo)
    ensures
        r@ == with_fallbacks(
            info_of(tagged(album.tracks@), album.tracks@.len()),
            last_part(album.dir@),
        ),
{
    let mut info = album_info_raw(album);
    let folder = folder_name(album.dir.as_str());
    info.apply_fallbacks(folder.as_str());
    info
}

/// Album information merged with sidecars: tags before `album.nfo` before `artist.nfo` before
/// the folder name.
pub open spec fn info_with_sidecars(
    album: AlbumDir,
    read_nfo: bool,
    nfo: Option<AlbumNfoView>,
    artist: Option<ArtistNfoView>,
) -> InfoView {
    let raw = info_of(tagged(album.tracks@), album.tracks@.len());
    let a = match nfo {
        Some(n) => if read_nfo {
            with_album_nfo(raw, n)
        } else {
            raw
        },
        None => raw,
    };
    let b = match artist {
        Some(n) => if read_nfo {
            with_artist_nfo(a, n)
        } else {
            a
        },
        None => a,
    };
    with_fallbacks(b, last_part(album.dir@))
}

pub open spec fn nfo_view(n: Option<NfoAlbum>) -> Option<AlbumNfoView> {
    match n {
        Some(x) => Some(x@),
        None => None,
    }
}

pub open spec fn artist_view(n: Option<NfoArtist>) -> Option<ArtistNfoView> {
    match n {
        Some(x) => Some(x@),
        None => None,
    }
}

/// Album information from tags and the sidecars found in its folder.
pub fn album_info_with_nfo(
    album: &AlbumDir,
    cfg: &Config,
    nfo: &Option<NfoAlbum>,
    artist: &Option<NfoArtist>,
) -> (r: AlbumInfo)
    ensures
        r@ == info_with_sidecars(*album, cfg.read_nfo, nfo_view(*nfo), artist_view(*artist)),
{
    let mut info = album_info_raw(album);
    if cfg.read_nfo {
        if let Some(n) = nfo {
            info.merge_album_nfo(n);
        }
        if let Some(a) = artist {
            info.merge_artist_nfo(a);
        }
    }
    let folder = folder_name(album.dir.as_str());
    info.apply_fallbacks(folder.as_str());
    info
}

/// Tags take priority over sidecars and folder names: what the tags say of an album is kept.
pub proof fn tags_take_priority(
    album: AlbumDir,
    read_nfo: bool,
    nfo: Option<AlbumNfoView>,
    artist: Option<ArtistNfoView>,
)
    ensures
        ({
            let raw = info_of(tagged(album.tracks@), album.tracks@.len());
            let full = info_with_sidecars(album, read_nfo, nfo, artist);
            &&& raw.album.len() > 0 ==> full.album == raw.album
            &&& raw.album_artist.len() > 0 ==> full.album_artist == raw.album_artist
            &&& raw.year is Some ==> full.year == raw.year
            &&& raw.genre.len() > 0 ==> full.genre == raw.genre
        }),
{
}

// ---------------------------------------------------------------------------
// Classification

/// Whether genre or title speak of a soundtrack.
pub open spec fn sounds_like_soundtrack(info: InfoView) -> bool {
    let genre = text::lowered(info.genre);
    let album = text::lowered(info.album);
    ||| text::has(genre, "soundtrack"@)
    ||| text::has(genre, "ost"@)
    ||| text::has(album, "soundtrack"@)
    ||| text::has(album, "original motion picture"@)
    ||| text::has(album, "music from"@)
    ||| text::has(album, "music inspired by"@)
}

/// Whether the album is by various artists: it says so, or it has several artists and no album
/// artist.
pub open spec fn by_various(info: InfoView) -> bool {
    let artist = text::lowered(text::trimmed(info.album_artist));
    ||| artist == "various"@
    ||| artist == "various artists"@
    ||| artist == "va"@
    ||| info.distinct_artists.len() > 1 && artist.len() == 0
}

/// The bucket that the MusicBrainz release type decides on.
pub open spec fn bucket_of_type(release_type: Seq<char>, singles: bool) -> Option<Bucket> {
    let t = text::lowered(release_type);
    if t == "soundtrack"@ || t == "score"@ {
        Some(Bucket::Soundtrack)
    } else if t == "compilation"@ || t == "live"@ {
        Some(Bucket::Various)
    } else if (t == "single"@ || t == "ep"@ || t == "mixtape"@) && singles {
        Some(Bucket::Singles)
    } else {
        None
    }
}

/// The bucket that tags and the number of tracks decide on.
pub open spec fn bucket_of_tags(info: InfoView, singles: bool, min_tracks: nat) -> Bucket {
    if sounds_like_soundtrack(info) {
        Bucket::Soundtrack
    } else if by_various(info) {
        Bucket::Various
    } else if singles && (info.track_count == 1 || info.track_count < min_tracks) {
        Bucket::Singles
    } else {
        Bucket::Normal
    }
}

/// The bucket of an album: the release type first, where it is used, then the tags.
pub open spec fn bucket_of(info: InfoView, cfg: Config) -> Bucket {
    match bucket_of_type(info.release_type, cfg.singles_enabled) {
        Some(b) => if cfg.classify_from_mb {
            b
        } else {
            bucket_of_tags(info, cfg.singles_enabled, cfg.incomplete_album_min_tracks as nat)
        },
        None => bucket_of_tags(info, cfg.singles_enabled, cfg.incomplete_album_min_tracks as nat),
    }
}

fn type_bucket(release_type: &str, singles: bool) -> (r: Option<Bucket>)
    ensures
        r == bucket_of_type(release_type@, singles),
{
    let low = text::lower(release_type);
    let t = low.as_str();
    if text::same(t, "soundtrack") || text::same(t, "score") {
        Some(Bucket::Soundtrack)
    } else if text::same(t, "compilation") || text::same(t, "live") {
        Some(Bucket::Various)
    } else if (text::same(t, "single") || text::same(t, "ep") || text::same(t, "mixtape"))
        && singles {
        Some(Bucket::Singles)
    } else {
        None
    }
}

/// Classifies an album into a bucket.
pub fn classify(info: &AlbumInfo, cfg: &Config) -> (r: Bucket)
    ensures
        r == bucket_of(info@, *cfg),
{
    if cfg.classify_from_mb {
        if let Some(b) = type_bucket(info.release_type.as_str(), cfg.singles_enabled) {
            return b;
        }
    }
    let genre = text::lower(info.genre.as_str());
    let album = text::lower(info.album.as_str());
    let g = genre.as_str();
    let a = album.as_str();
    if text::contains(g, "soundtrack") || text::contains(g, "ost") || text::contains(a, "soundtrack")
        || text::contains(a, "original motion picture") || text::contains(a, "music from")
        || text::contains(a, "music inspired by") {
        return Bucket::Soundtrack;
    }
    let trimmed = text::trim(info.album_artist.as_str());
    let artist = text::lower(trimmed.as_str());
    let aa = artist.as_str();
    if text::same(aa, "various") || text::same(aa, "various artists") || text::same(aa, "va") || (
    info.distinct_artists.len() > 1 && text::length(aa) == 0) {
        return Bucket::Various;
    }
    if cfg.singles_enabled && (info.track_count == 1 || info.track_count
        < cfg.incomplete_album_min_tracks) {
        return Bucket::Singles;
    }
    Bucket::Normal
}

/// Turning singles off means that nothing is classified as a single.
pub proof fn no_singles_when_turned_off(info: InfoView, cfg: Config)
    requires
        !cfg.singles_enabled,
    ensures
        bucket_of(info, cfg) != Bucket::Singles,
{
}

/// Soundtrack comes before various artists, various artists before singles: without a deciding
/// release type, an album that qualifies for several buckets gets the first of them.
pub proof fn buckets_have_an_order(info: InfoView, cfg: Config)
    requires
        !cfg.classify_from_mb || bucket_of_type(info.release_type, cfg.singles_enabled) is None,
    ensures
        sounds_like_soundtrack(info) ==> bucket_of(info, cfg) == Bucket::Soundtrack,
        !sounds_like_soundtrack(info) && by_various(info) ==> bucket_of(info, cfg)
            == Bucket::Various,
{
}

// ---------------------------------------------------------------------------
// Target folders

/// The template fields of an album folder.
pub open spec fn fields_of_album(info: InfoView, first_title: Seq<char>) -> FieldsView {
    FieldsView {
        track: None,
        disc: None,
        title: or_else(info.album, first_title),
        artist: info.album_artist,
        album_artist: info.album_artist,
        album: info.album,
        year: info.year,
        genre: info.genre,
        recording: if info.recording == Recording::Mixed {
            Seq::empty()
        } else {
            info.recording.label()
        },
        mbid: Seq::empty(),
    }
}

fn album_fields(info: &AlbumInfo, first_title: &str) -> (r: TemplateFields)
    ensures
        r@ == fields_of_album(info@, first_title@),
{
    let title: String = if text::length(info.album.as_str()) == 0 {
        text::copy(first_title)
    } else {
        info.album.clone()
    };
    let recording: String = match info.recording {
        Recording::Mixed => String::new(),
        _ => text::copy(info.recording.as_str()),
    };
    TemplateFields {
        track: None,
        disc: None,
        title,
        artist: info.album_artist.clone(),
        album_artist: info.album_artist.clone(),
        album: info.album.clone(),
        year: info.year,
        genre: info.genre.clone(),
        recording,
        mbid: String::new(),
    }
}

/// Whether a recording is live or a bootleg.
pub open spec fn apart(r: Recording) -> bool {
    r == Recording::Live || r == Recording::Bootleg
}

/// " (Live)" or " (Bootleg)" for recordings that are kept apart.
pub open spec fn recording_suffix(r: Recording) -> Seq<char> {
    if apart(r) {
        " ("@ + r.label() + ")"@
    } else {
        Seq::empty()
    }
}

/// The schema of an album's folder: the part of it that is rendered.
pub open spec fn schema_of(bucket: Bucket, info: InfoView, cfg: Config) -> Seq<char> {
    match bucket {
        Bucket::Soundtrack => cfg.soundtrack_folder@ + "/{album} ({year})"@,
        Bucket::Singles => if cfg.singles_under_artist && text::trimmed(info.album_artist).len()
            > 0 {
            "{albumArtist}/"@ + cfg.singles_folder@ + "/{title}"@
        } else {
            cfg.singles_folder@ + "/{albumArtist} - {title}"@
        },
        Bucket::Various => cfg.various_folder@ + "/{album} ({year})"@,
        Bucket::Normal => cfg.folder_schema@,
    }
}

/// The folder of an album without the recording suffix.
///
/// Soundtracks go to `Various Artist/Sound Tracks/{album} ({year})`, compilations to
/// `Various Artist/{album} ({year})`, singles to `{albumArtist}/Singles/{title}` where the artist
/// is known and to `Various Artist/Singles/{albumArtist} - {title}` otherwise, everything else to
/// the folder schema.
pub open spec fn base_dir(
    bucket: Bucket,
    info: InfoView,
    cfg: Config,
    first_title: Seq<char>,
) -> Seq<char> {
    let sub = template::folder_path(
        schema_of(bucket, info, cfg),
        fields_of_album(info, first_title),
        options(cfg),
    );
    let nested = match bucket {
        Bucket::Soundtrack => cfg.nest_buckets_under_various,
        Bucket::Singles => !(cfg.singles_under_artist && text::trimmed(info.album_artist).len() > 0),
        _ => false,
    };
    if nested {
        cfg.various_folder@ + "/"@ + sub
    } else {
        sub
    }
}

/// The folder of an album. Live and bootleg albums get a suffix, so that they never collide with
/// the studio release. The artist's name stands in where that leaves nothing.
pub open spec fn target_dir(
    bucket: Bucket,
    info: InfoView,
    cfg: Config,
    first_title: Seq<char>,
) -> Seq<char> {
    or_else(
        base_dir(bucket, info, cfg, first_title) + recording_suffix(info.recording),
        last_part(info.album_artist),
    )
}

fn suffix_text(r: Recording) -> (s: String)
    ensures
        s@ == recording_suffix(r),
{
    match r {
        Recording::Live | Recording::Bootleg => {
            let mut out = text::copy(" (");
            out.append(r.as_str());
            out.append(")");
            out
        },
        _ => String::new(),
    }
}

/// The target folder (relative to the root) of an album in a bucket.
pub fn target_album_dir(bucket: Bucket, info: &AlbumInfo, cfg: &Config, first_title: &str) -> (r:
    String)
    ensures
        r@ == target_dir(bucket, info@, *cfg, first_title@),
{
    let fields = album_fields(info, first_title);
    let opts = sanitize_opts(cfg);
    let rendered: String = match bucket {
        Bucket::Soundtrack => {
            let schema = text::join_two(cfg.soundtrack_folder.as_str(), "/{album} ({year})");
            let sub = template::render_folder_path(schema.as_str(), &fields, &opts);
            if cfg.nest_buckets_under_various {
                let mut out = cfg.various_folder.clone();
                out.append("/");
                out.append(sub.as_str());
                out
            } else {
                sub
            }
        },
        Bucket::Singles => {
            let artist = text::trim(info.album_artist.as_str());
            if cfg.singles_under_artist && text::length(artist.as_str()) > 0 {
                let mut schema = text::copy("{albumArtist}/");
                schema.append(cfg.singles_folder.as_str());
                schema.append("/{title}");
                template::render_folder_path(schema.as_str(), &fields, &opts)
            } else {
                let schema = text::join_two(
                    cfg.singles_folder.as_str(),
                    "/{albumArtist} - {title}",
                );
                let sub = template::render_folder_path(schema.as_str(), &fields, &opts);
                let mut out = cfg.various_folder.clone();
                out.append("/");
                out.append(sub.as_str());
                out
            }
        },
        Bucket::Various => {
            let schema = text::join_two(cfg.various_folder.as_str(), "/{album} ({year})");
            template::render_folder_path(schema.as_str(), &fields, &opts)
        },
        Bucket::Normal => template::render_folder_path(cfg.folder_schema.as_str(), &fields, &opts),
    };
    let suffix = suffix_text(info.recording);
    let dir = text::join_two(rendered.as_str(), suffix.as_str());
    if text::length(dir.as_str()) == 0 {
        folder_name(info.album_artist.as_str())
    } else {
        dir
    }
}

/// A live or bootleg album never shares its folder with the studio release of the same name, in
/// every bucket whose schema does not ask for the recording itself: its folder is that of the
/// studio release followed by the suffix. Where the schema renders to nothing the studio release
/// has the folder of its artist and the other one the suffix alone, so the artist must not be
/// called like the suffix.
pub proof fn live_albums_are_kept_apart(
    bucket: Bucket,
    studio: InfoView,
    live: InfoView,
    cfg: Config,
    first_title: Seq<char>,
)
    requires
        studio.recording == Recording::Studio,
        apart(live.recording),
        live == (InfoView { recording: live.recording, ..studio }),
        template::without_recording(schema_of(bucket, studio, cfg)),
        base_dir(bucket, studio, cfg, first_title).len() > 0 || last_part(studio.album_artist)
            != recording_suffix(live.recording),
    ensures
        base_dir(bucket, studio, cfg, first_title).len() > 0 ==> target_dir(
            bucket,
            live,
            cfg,
            first_title,
        ) == target_dir(bucket, studio, cfg, first_title) + recording_suffix(live.recording),
        target_dir(bucket, live, cfg, first_title) != target_dir(bucket, studio, cfg, first_title),
{
    template::recording_does_not_matter(
        schema_of(bucket, studio, cfg),
        fields_of_album(studio, first_title),
        fields_of_album(live, first_title),
    );
    reveal_strlit(" (");
    let b = base_dir(bucket, studio, cfg, first_title);
    let suffix = recording_suffix(live.recording);
    assert(b + Seq::<char>::empty() == b);
    assert(suffix.len() > 0);
    assert(target_dir(bucket, live, cfg, first_title) == b + suffix);
    if b.len() == 0 {
        assert(b + suffix == suffix);
    }
}

/// In a text in which no `{` is followed by an `r`, nothing asks for the recording.
proof fn no_token_of_that_letter(s: Seq<char>)
    requires
        forall|i: int| 0 <= i < s.len() - 1 && #[trigger] s[i] == '{' ==> s[i + 1] != 'r',
    ensures
        template::without_recording(s),
{
    let pat = "{recording"@;
    reveal_strlit("{recording");
    if text::has(s, pat) {
        let i = choose|i: int| text::stands_at(s, pat, i);
        assert(s.subrange(i, i + 10)[0] == s[i]);
        assert(s.subrange(i, i + 10)[1] == s[i + 1]);
        assert(pat[0] == '{' && pat[1] == 'r');
    }
}

/// None of the schemas of a configuration without any setting asks for the recording.
proof fn default_schemas_do_not_name_the_recording(bucket: Bucket, info: InfoView, cfg: Config)
    requires
        cfg.reads(Map::empty()),
    ensures
        template::without_recording(schema_of(bucket, info, cfg)),
{
    reveal_strlit("{albumArtist}/{album} ({year})");
    reveal_strlit("Sound Tracks");
    reveal_strlit("Various Artist");
    reveal_strlit("Singles");
    reveal_strlit("/{album} ({year})");
    reveal_strlit("{albumArtist}/");
    reveal_strlit("/{title}");
    reveal_strlit("/{albumArtist} - {title}");
    no_token_of_that_letter(schema_of(bucket, info, cfg));
}

/// A token at the front of a text ends at the first closing brace.
proof fn token_in_front(s: Seq<char>, end: int)
    requires
        1 < end < s.len(),
        s[0] == '{',
        s[end] == '}',
        forall|i: int| 0 <= i < end ==> #[trigger] s[i] != '}',
    ensures
        template::token_end(s) == Some(end),
{
    reveal_strlit("}");
    let pat = "}"@;
    text::find_from_meaning(s, pat, 0);
    assert(s.subrange(end, end + 1) =~= pat);
    assert(text::stands_at(s, pat, end));
    match text::found(s, pat) {
        Some(at) => {
            assert(s.subrange(at, at + 1)[0] == s[at]);
            assert(at == end);
        },
        None => {},
    }
}

/// Each schema of a configuration without any setting names a folder, whatever is filled in.
proof fn default_schemas_name_a_folder(
    bucket: Bucket,
    info: InfoView,
    cfg: Config,
    first_title: Seq<char>,
)
    requires
        cfg.reads(Map::empty()),
    ensures
        base_dir(bucket, info, cfg, first_title).len() > 0,
{
    reveal_strlit("{albumArtist}/{album} ({year})");
    reveal_strlit("Sound Tracks");
    reveal_strlit("Various Artist");
    reveal_strlit("Singles");
    reveal_strlit("/{album} ({year})");
    reveal_strlit("{albumArtist}/");
    reveal_strlit("/{title}");
    reveal_strlit("/{albumArtist} - {title}");
    reveal_strlit("/");
    let s = schema_of(bucket, info, cfg);
    let under_artist = cfg.singles_under_artist && text::trimmed(info.album_artist).len() > 0;
    let c = match bucket {
        Bucket::Various => 'V',
        Bucket::Normal => '(',
        _ => 'S',
    };
    if bucket == Bucket::Normal || (bucket == Bucket::Singles && under_artist) {
        token_in_front(s, 12);
        let t = s.skip(13);
        let u = t.skip(1);
        assert(t[0] == '/' && template::token_end(t) is None);
        if bucket == Bucket::Normal {
            token_in_front(u, 6);
            let v = u.skip(7);
            assert(v[0] == ' ' && v.skip(1)[0] == c);
            assert(template::literal(v.skip(1), c));
            assert(template::literal(v, c));
            assert(template::literal(u, c));
        } else {
            assert(u[0] == c);
            assert(template::literal(u, c));
        }
        assert(template::literal(t, c));
    } else {
        assert(s[0] == c);
    }
    assert(template::literal(s, c));
    template::named_folders_are_never_empty(
        s,
        fields_of_album(info, first_title),
        options(cfg),
        c,
    );
}

/// Where nothing is set, the folder of a live or bootleg album is that of the studio release of
/// the same name followed by ` (Live)` or ` (Bootleg)`, in every bucket.
pub proof fn live_albums_are_kept_apart_by_default(
    bucket: Bucket,
    studio: InfoView,
    live: InfoView,
    cfg: Config,
    first_title: Seq<char>,
)
    requires
        cfg.reads(Map::empty()),
        studio.recording == Recording::Studio,
        apart(live.recording),
        live == (InfoView { recording: live.recording, ..studio }),
    ensures
        target_dir(bucket, live, cfg, first_title) == target_dir(bucket, studio, cfg, first_title)
            + if live.recording == Recording::Live {
            " (Live)"@
        } else {
            " (Bootleg)"@
        },
        target_dir(bucket, live, cfg, first_title) != target_dir(bucket, studio, cfg, first_title),
{
    default_schemas_do_not_name_the_recording(bucket, studio, cfg);
    default_schemas_name_a_folder(bucket, studio, cfg, first_title);
    live_albums_are_kept_apart(bucket, studio, live, cfg, first_title);
    reveal_strlit(" (");
    reveal_strlit(")");
    reveal_strlit("Live");
    reveal_strlit("Bootleg");
    reveal_strlit(" (Live)");
    reveal_strlit(" (Bootleg)");
    assert(" ("@ + "Live"@ + ")"@ =~= " (Live)"@);
    assert(" ("@ + "Bootleg"@ + ")"@ =~= " (Bootleg)"@);
}

// ---------------------------------------------------------------------------
// File names

/// The leading digits of a text.
pub open spec fn leading_digits(s: Seq<char>) -> Seq<char> {
    s.take(s.len() - text::strip_front(s, crate::fraction::digit()).len())
}

/// Track number and title in a file name such as `01 - Dream On.flac`.
pub open spec fn name_parts(name: Seq<char>) -> (Option<u32>, Seq<char>) {
    let t = text::trimmed(stem(name));
    let digits = leading_digits(t);
    if digits.len() == 0 {
        (None, t)
    } else {
        (
            match text::parsed_int(digits, 0, u32::MAX as int) {
                Some(n) => Some(n as u32),
                None => None,
            },
            text::strip_front(t.skip(digits.len() as int), text::among("- _.)(["@)),
        )
    }
}

/// Reads track number and title from a file name, for files without tags.
pub fn parse_file_name(name: &str) -> (r: (Option<u32>, String))
    ensures
        (r.0, r.1@) == name_parts(name@),
{
    let s = stem_of(name);
    let t = text::trim(s.as_str());
    let v = text::chars_of(t.as_str());
    let mut k: usize = 0;
    assert(v@.skip(0) == v@);
    while k < v.len() && text::char_is_digit(v[k])
        invariant
            k <= v@.len(),
            text::strip_front(v@, crate::fraction::digit()) == text::strip_front(
                v@.skip(k as int),
                crate::fraction::digit(),
            ),
        decreases v@.len() - k,
    {
        assert(v@.skip(k as int)[0] == v@[k as int]);
        assert(v@.skip(k as int).drop_first() == v@.skip(k + 1));
        k = k + 1;
    }
    proof {
        if k < v@.len() {
            assert(v@.skip(k as int)[0] == v@[k as int]);
        }
        assert(text::strip_front(v@, crate::fraction::digit()) == v@.skip(k as int));
        assert(leading_digits(t@) == t@.take(k as int));
    }
    if k == 0 {
        return (None, t);
    }
    let digits = text::text_of(&v, 0, k);
    assert(digits@ == t@.take(k as int));
    let rest = text::text_of(&v, k, v.len());
    assert(rest@ == t@.skip(k as int));
    let title = text::trim_front(rest.as_str(), "- _.)([");
    let number: Option<u32> = match text::parse_nat(digits.as_str(), u32::MAX as u64) {
        Some(n) => Some(n as u32),
        None => None,
    };
    (number, title)
}

// ---------------------------------------------------------------------------
// What is on disk

/// What is on disk under the library root, as far as a plan asks for it.
#[derive(Debug)]
pub struct Disk {
    /// Everything that exists.
    pub existing: Vec<String>,
    /// Sizes of files; a file that is not listed counts as empty.
    pub sizes: Vec<(String, u64)>,
    /// The names in a folder; a folder that is not listed counts as empty.
    pub listings: Vec<(String, Vec<String>)>,
}

pub open spec fn listing_from(v: Seq<(String, Vec<String>)>, dir: Seq<char>, i: int) -> Seq<Seq<char>>
    decreases v.len() - i,
{
    if i < 0 || i >= v.len() {
        Seq::empty()
    } else if v[i].0@ == dir {
        text::views(v[i].1@)
    } else {
        listing_from(v, dir, i + 1)
    }
}

pub open spec fn size_from(v: Seq<(String, u64)>, path: Seq<char>, i: int) -> u64
    decreases v.len() - i,
{
    if i < 0 || i >= v.len() {
        0
    } else if v[i].0@ == path {
        v[i].1
    } else {
        size_from(v, path, i + 1)
    }
}

impl Disk {
    /// What exists.
    pub open spec fn paths(&self) -> Seq<Seq<char>> {
        text::views(self.existing@)
    }

    /// The size of a file.
    pub open spec fn size(&self, path: Seq<char>) -> u64 {
        size_from(self.sizes@, path, 0)
    }

    /// The names in a folder.
    pub open spec fn names(&self, dir: Seq<char>) -> Seq<Seq<char>> {
        listing_from(self.listings@, dir, 0)
    }

    pub fn size_of(&self, path: &str) -> (r: u64)
        ensures
            r == self.size(path@),
    {
        let mut i: usize = 0;
        while i < self.sizes.len()
            invariant
                i <= self.sizes@.len(),
                self.size(path@) == size_from(self.sizes@, path@, i as int),
            decreases self.sizes@.len() - i,
        {
            if text::same(self.sizes[i].0.as_str(), path) {
                return self.sizes[i].1;
            }
            i = i + 1;
        }
        0
    }

    pub fn names_in(&self, dir: &str) -> (r: Option<&Vec<String>>)
        ensures
            match r {
                Some(v) => text::views(v@) == self.names(dir@),
                None => self.names(dir@).len() == 0,
            },
    {
        let mut i: usize = 0;
        while i < self.listings.len()
            invariant
                i <= self.listings@.len(),
                self.names(dir@) == listing_from(self.listings@, dir@, i as int),
            decreases self.listings@.len() - i,
        {
            if text::same(self.listings[i].0.as_str(), dir) {
                return Some(&self.listings[i].1);
            }
            i = i + 1;
        }
        None
    }
}

/// Whether a text is among others.
pub fn among_texts(list: &Vec<String>, s: &str) -> (r: bool)
    ensures
        r == text::views(list@).contains(s@),
{
    let mut i: usize = 0;
    while i < list.len()
        invariant
            i <= list@.len(),
            forall|k: int| 0 <= k < i ==> text::views(list@)[k] != s@,
        decreases list@.len() - i,
    {
        assert(text::views(list@)[i as int] == list@[i as int]@);
        if text::same(list[i].as_str(), s) {
            return true;
        }
        i = i + 1;
    }
    assert(!text::views(list@).contains(s@));
    false
}

/// The names that accompany a track: sidecars that start with its stem.
pub open spec fn companions(names: Seq<Seq<char>>, track_stem: Seq<char>) -> Seq<Seq<char>>
    decreases names.len(),
{
    if names.len() == 0 {
        Seq::empty()
    } else {
        let before = companions(names.drop_last(), track_stem);
        if sidecar(names.last()) && text::begins(names.last(), track_stem) {
            before.push(names.last())
        } else {
            before
        }
    }
}

fn companions_in(names: Option<&Vec<String>>, track_stem: &str) -> (r: Vec<String>)
    ensures
        text::views(r@) == companions(
            match names {
                Some(v) => text::views(v@),
                None => Seq::empty(),
            },
            track_stem@,
        ),
{
    let mut out: Vec<String> = Vec::new();
    assert(text::views(out@) == Seq::<Seq<char>>::empty());
    if let Some(v) = names {
        let mut i: usize = 0;
        assert(text::views(v@).take(0) == Seq::<Seq<char>>::empty());
        while i < v.len()
            invariant
                i <= v@.len(),
                text::views(out@) == companions(text::views(v@).take(i as int), track_stem@),
            decreases v@.len() - i,
        {
            proof {
                assert(text::views(v@).take(i + 1).drop_last() == text::views(v@).take(i as int));
                assert(text::views(v@).take(i + 1).last() == v@[i as int]@);
            }
            if is_sidecar(v[i].as_str()) && text::starts_with(v[i].as_str(), track_stem) {
                let name = v[i].clone();
                proof {
                    text::views_push(out@, name);
                }
                out.push(name);
            }
            i = i + 1;
        }
        assert(text::views(v@).take(i as int) == text::views(v@));
    }
    out
}

// ---------------------------------------------------------------------------
// The fate of each file

/// What becomes of a file in a plan.
#[derive(Debug, Clone, Copy, PartialEq, Eq, Structural)]
pub enum Fate {
    /// A confirmed duplicate; it is moved out of the way.
    Loser,
    /// It is where it belongs.
    Kept,
    /// Another file of the plan has its target.
    NameTaken,
    /// A file exists at its target.
    TargetExists,
    /// It is moved.
    Moved,
}

/// Whether a file claims its target: it is no loser and not where it belongs already.
pub open spec fn claims(
    from: Seq<Seq<char>>,
    to: Seq<Seq<char>>,
    losers: Seq<bool>,
    i: int,
) -> bool {
    !losers[i] && !same_but_case(from[i], to[i])
}

/// Whether an earlier file claims the same target, but for case.
pub open spec fn claimed_before(
    from: Seq<Seq<char>>,
    to: Seq<Seq<char>>,
    losers: Seq<bool>,
    i: int,
) -> bool {
    exists|j: int| 0 <= j < i && claims(from, to, losers, j) && same_but_case(#[trigger] to[j], to[i])
}

/// What becomes of file `i`. A target counts as existing where `guard` is on and the disk has it.
pub open spec fn fate(
    from: Seq<Seq<char>>,
    to: Seq<Seq<char>>,
    losers: Seq<bool>,
    existing: Seq<Seq<char>>,
    guard: bool,
    i: int,
) -> Fate {
    if losers[i] {
        Fate::Loser
    } else if same_but_case(from[i], to[i]) {
        Fate::Kept
    } else if claimed_before(from, to, losers, i) {
        Fate::NameTaken
    } else if guard && existing.contains(to[i]) {
        Fate::TargetExists
    } else {
        Fate::Moved
    }
}

fn decide_fates(
    from: &Vec<String>,
    to: &Vec<String>,
    losers: &Vec<bool>,
    existing: &Vec<String>,
    guard: bool,
) -> (r: Vec<Fate>)
    requires
        from@.len() == to@.len() == losers@.len(),
    ensures
        r@.len() == from@.len(),
        forall|i: int|
            0 <= i < r@.len() ==> #[trigger] r@[i] == fate(
                text::views(from@),
                text::views(to@),
                losers@,
                text::views(existing@),
                guard,
                i,
            ),
{
    let ghost f = text::views(from@);
    let ghost t = text::views(to@);
    let mut out: Vec<Fate> = Vec::new();
    let mut i: usize = 0;
    while i < from.len()
        invariant
            i <= from@.len(),
            from@.len() == to@.len() == losers@.len(),
            f == text::views(from@),
            t == text::views(to@),
            out@.len() == i,
            forall|k: int|
                0 <= k < i ==> #[trigger] out@[k] == fate(
                    f,
                    t,
                    losers@,
                    text::views(existing@),
                    guard,
                    k,
                ),
        decreases from@.len() - i,
    {
        assert(f[i as int] == from@[i as int]@);
        assert(t[i as int] == to@[i as int]@);
        let decision: Fate = if losers[i] {
            Fate::Loser
        } else if equal_but_case(from[i].as_str(), to[i].as_str()) {
            Fate::Kept
        } else {
            let mut taken: bool = false;
            let mut j: usize = 0;
            while j < i
                invariant
                    j <= i,
                    i < from@.len(),
                    from@.len() == to@.len() == losers@.len(),
                    f == text::views(from@),
                    t == text::views(to@),
                    taken == (exists|k: int|
                        0 <= k < j && claims(f, t, losers@, k) && same_but_case(
                            #[trigger] t[k],
                            t[i as int],
                        )),
                decreases i - j,
            {
                assert(t[j as int] == to@[j as int]@);
                assert(f[j as int] == from@[j as int]@);
                if !losers[j] && !equal_but_case(from[j].as_str(), to[j].as_str())
                    && equal_but_case(to[j].as_str(), to[i].as_str()) {
                    assert(claims(f, t, losers@, j as int));
                    assert(same_but_case(t[j as int], t[i as int]));
                    taken = true;
                }
                j = j + 1;
            }
            if taken {
                Fate::NameTaken
            } else if guard && among_texts(existing, to[i].as_str()) {
                Fate::TargetExists
            } else {
                Fate::Moved
            }
        };
        out.push(decision);
        i = i + 1;
    }
    out
}

// ---------------------------------------------------------------------------
// Plans

/// One file to move.
#[derive(Debug, Clone)]
pub struct FileMove {
    /// Source, relative to the root.
    pub from: String,
    /// Target, relative to the root.
    pub to: String,
    /// Names in the source folder that move alongside.
    pub sidecars: Vec<String>,
}

/// The mathematical value of a move.
#[verifier::ext_equal]
pub struct MoveView {
    pub from: Seq<char>,
    pub to: Seq<char>,
    pub sidecars: Seq<Seq<char>>,
}

impl View for FileMove {
    type V = MoveView;

    open spec fn view(&self) -> MoveView {
        MoveView { from: self.from@, to: self.to@, sidecars: text::views(self.sidecars@) }
    }
}

pub open spec fn move_views(v: Seq<FileMove>) -> Seq<MoveView> {
    Seq::new(v.len(), |i: int| v[i]@)
}

pub open spec fn pair_views(v: Seq<(String, String)>) -> Seq<(Seq<char>, Seq<char>)> {
    Seq::new(v.len(), |i: int| (v[i].0@, v[i].1@))
}

/// The moves among the first `n` files.
pub open spec fn moves_of(
    from: Seq<Seq<char>>,
    to: Seq<Seq<char>>,
    fates: Seq<Fate>,
    sidecars: Seq<Seq<Seq<char>>>,
    n: int,
) -> Seq<MoveView>
    decreases n,
{
    if n <= 0 {
        Seq::empty()
    } else {
        let before = moves_of(from, to, fates, sidecars, n - 1);
        if fates[n - 1] == Fate::Moved {
            before.push(
                MoveView { from: from[n - 1], to: to[n - 1], sidecars: sidecars[n - 1] },
            )
        } else {
            before
        }
    }
}

/// Why a file is skipped.
pub open spec fn skip_reason(f: Fate) -> Seq<char> {
    if f == Fate::NameTaken {
        "duplicate target name"@
    } else {
        "target file already exists"@
    }
}

/// The files among the first `n` that are skipped, each with the reason.
pub open spec fn skips_of(from: Seq<Seq<char>>, fates: Seq<Fate>, n: int) -> Seq<
    (Seq<char>, Seq<char>),
>
    decreases n,
{
    if n <= 0 {
        Seq::empty()
    } else {
        let before = skips_of(from, fates, n - 1);
        if fates[n - 1] == Fate::NameTaken || fates[n - 1] == Fate::TargetExists {
            before.push((from[n - 1], skip_reason(fates[n - 1])))
        } else {
            before
        }
    }
}

/// How many of the first `n` files have a fate.
pub open spec fn count_of(fates: Seq<Fate>, f: Fate, n: int) -> nat
    decreases n,
{
    if n <= 0 {
        0
    } else {
        count_of(fates, f, n - 1) + if fates[n - 1] == f {
            1nat
        } else {
            0nat
        }
    }
}

/// The target name of a file: the file schema, the recording where it has to be kept apart and
/// is not named yet, the extension.
pub open spec fn file_target(
    cfg: Config,
    fields: FieldsView,
    recording: Recording,
    path: Seq<char>,
) -> Seq<char> {
    let name = template::file_name(cfg.file_schema@, fields, options(cfg));
    let full = if cfg.preserve_recording_type && apart(recording) && !text::has(
        text::lowered(name),
        text::lowered(recording.label()),
    ) {
        name + recording_suffix(recording)
    } else {
        name
    };
    full + "."@ + extension(path)
}

fn file_target_text(cfg: &Config, fields: &TemplateFields, recording: Recording, path: &str) -> (r:
    String)
    ensures
        r@ == file_target(*cfg, fields@, recording, path@),
{
    let opts = sanitize_opts(cfg);
    let mut name = template::render_file_name(cfg.file_schema.as_str(), fields, &opts);
    let kept_apart: bool = match recording {
        Recording::Live | Recording::Bootleg => true,
        _ => false,
    };
    if cfg.preserve_recording_type && kept_apart {
        let low = text::lower(name.as_str());
        let label = text::lower(recording.as_str());
        if !text::contains(low.as_str(), label.as_str()) {
            let suffix = suffix_text(recording);
            name.append(suffix.as_str());
        }
    }
    let ext = extension_of(path);
    name.append(".");
    name.append(ext.as_str());
    name
}

/// A change plan for one album folder.
#[derive(Debug, Clone)]
pub struct AlbumPlan {
    pub bucket: Bucket,
    pub current_dir: String,
    pub target_dir: String,
    pub moves: Vec<FileMove>,
    /// Files of the folder as a whole (album.nfo, cover.jpg, ...) that move along.
    pub dir_sidecars: Vec<String>,
    pub keeps: usize,
    /// Files that stay because their target is taken, with the reason.
    pub skipped: Vec<(String, String)>,
}

/// The mathematical value of an album plan.
#[verifier::ext_equal]
pub struct AlbumPlanView {
    pub bucket: Bucket,
    pub current_dir: Seq<char>,
    pub target_dir: Seq<char>,
    pub moves: Seq<MoveView>,
    pub dir_sidecars: Seq<Seq<char>>,
    pub keeps: nat,
    pub skipped: Seq<(Seq<char>, Seq<char>)>,
}

impl View for AlbumPlan {
    type V = AlbumPlanView;

    open spec fn view(&self) -> AlbumPlanView {
        AlbumPlanView {
            bucket: self.bucket,
            current_dir: self.current_dir@,
            target_dir: self.target_dir@,
            moves: move_views(self.moves@),
            dir_sidecars: text::views(self.dir_sidecars@),
            keeps: self.keeps as nat,
            skipped: pair_views(self.skipped@),
        }
    }
}

/// The title of the first track.
pub open spec fn first_title(tracks: Seq<TrackEntry>) -> Seq<char> {
    match tracks[0].tags {
        Some(t) => t.title@,
        None => name_parts(tracks[0].name@).1,
    }
}

/// The template fields of a track in an album folder.
pub open spec fn fields_of_track(track: TrackEntry, info: InfoView) -> FieldsView {
    let (number, name_title) = name_parts(track.name@);
    match track.tags {
        Some(t) => FieldsView {
            track: if t.track is Some {
                t.track
            } else {
                number
            },
            disc: t.disc,
            title: or_else(t.title@, name_title),
            artist: t.artist@,
            album_artist: info.album_artist,
            album: info.album,
            year: info.year,
            genre: info.genre,
            recording: t.recording.label(),
            mbid: t.mbid_recording@,
        },
        None => FieldsView {
            track: number,
            disc: None,
            title: name_title,
            artist: info.album_artist,
            album_artist: info.album_artist,
            album: info.album,
            year: info.year,
            genre: info.genre,
            recording: Recording::Studio.label(),
            mbid: Seq::empty(),
        },
    }
}

pub open spec fn recording_of_track(track: TrackEntry) -> Recording {
    match track.tags {
        Some(t) => t.recording,
        None => Recording::Studio,
    }
}

/// The names in a folder that belong to it as a whole, hidden ones left out.
pub open spec fn folder_files(names: Seq<Seq<char>>) -> Seq<Seq<char>>
    decreases names.len(),
{
    if names.len() == 0 {
        Seq::empty()
    } else {
        let before = folder_files(names.drop_last());
        if !text::begins(names.last(), "."@) && folder_sidecar(names.last()) {
            before.push(names.last())
        } else {
            before
        }
    }
}

pub open spec fn track_sources(album: AlbumDir) -> Seq<Seq<char>> {
    Seq::new(album.tracks@.len(), |i: int| joined_rel(album.dir@, album.tracks@[i].name@))
}

pub open spec fn track_targets(album: AlbumDir, info: InfoView, cfg: Config, dir: Seq<char>) -> Seq<
    Seq<char>,
> {
    Seq::new(
        album.tracks@.len(),
        |i: int|
            joined_rel(
                dir,
                file_target(
                    cfg,
                    fields_of_track(album.tracks@[i], info),
                    recording_of_track(album.tracks@[i]),
                    album.tracks@[i].name@,
                ),
            ),
    )
}

pub open spec fn track_companions(album: AlbumDir, cfg: Config, disk: Disk) -> Seq<Seq<Seq<char>>> {
    Seq::new(
        album.tracks@.len(),
        |i: int|
            if cfg.rename_sidecars {
                companions(disk.names(album.dir@), stem(album.tracks@[i].name@))
            } else {
                Seq::empty()
            },
    )
}

pub open spec fn no_losers(n: nat) -> Seq<bool> {
    Seq::new(n, |i: int| false)
}

/// The fates of a number of files.
pub open spec fn fates_of(
    from: Seq<Seq<char>>,
    to: Seq<Seq<char>>,
    losers: Seq<bool>,
    existing: Seq<Seq<char>>,
    guard: bool,
) -> Seq<Fate> {
    Seq::new(from.len(), |i: int| fate(from, to, losers, existing, guard, i))
}

/// The plan for an album folder with the given information.
pub open spec fn album_plan(album: AlbumDir, info: InfoView, cfg: Config, disk: Disk) -> AlbumPlanView {
    let bucket = bucket_of(info, cfg);
    let dir = target_dir(bucket, info, cfg, first_title(album.tracks@));
    let n = album.tracks@.len();
    let from = track_sources(album);
    let to = track_targets(album, info, cfg, dir);
    let fates = fates_of(from, to, no_losers(n), disk.paths(), dir.len() > 0);
    AlbumPlanView {
        bucket,
        current_dir: album.dir@,
        target_dir: dir,
        moves: moves_of(from, to, fates, track_companions(album, cfg, disk), n as int),
        dir_sidecars: if same_but_case(album.dir@, dir) {
            Seq::empty()
        } else {
            folder_files(disk.names(album.dir@))
        },
        keeps: count_of(fates, Fate::Kept, n as int),
        skipped: skips_of(from, fates, n as int),
    }
}

fn track_fields(track: &TrackEntry, info: &AlbumInfo) -> (r: TemplateFields)
    ensures
        r@ == fields_of_track(*track, info@),
{
    let parts = parse_file_name(track.name.as_str());
    match &track.tags {
        Some(t) => {
            let title: String = if text::length(t.title.as_str()) == 0 {
                parts.1
            } else {
                t.title.clone()
            };
            TemplateFields {
                track: if t.track.is_some() {
                    t.track
                } else {
                    parts.0
                },
                disc: t.disc,
                title,
                artist: t.artist.clone(),
                album_artist: info.album_artist.clone(),
                album: info.album.clone(),
                year: info.year,
                genre: info.genre.clone(),
                recording: text::copy(t.recording.as_str()),
                mbid: t.mbid_recording.clone(),
            }
        },
        None => {
            let studio = Recording::Studio;
            TemplateFields {
                track: parts.0,
                disc: None,
                title: parts.1,
                artist: info.album_artist.clone(),
                album_artist: info.album_artist.clone(),
                album: info.album.clone(),
                year: info.year,
                genre: info.genre.clone(),
                recording: text::copy(studio.as_str()),
                mbid: String::new(),
            }
        },
    }
}

fn folder_files_in(names: Option<&Vec<String>>) -> (r: Vec<String>)
    ensures
        text::views(r@) == folder_files(
            match names {
                Some(v) => text::views(v@),
                None => Seq::empty(),
            },
        ),
{
    let mut out: Vec<String> = Vec::new();
    assert(text::views(out@) == Seq::<Seq<char>>::empty());
    if let Some(v) = names {
        let mut i: usize = 0;
        assert(text::views(v@).take(0) == Seq::<Seq<char>>::empty());
        while i < v.len()
            invariant
                i <= v@.len(),
                text::views(out@) == folder_files(text::views(v@).take(i as int)),
            decreases v@.len() - i,
        {
            proof {
                assert(text::views(v@).take(i + 1).drop_last() == text::views(v@).take(i as int));
                assert(text::views(v@).take(i + 1).last() == v@[i as int]@);
            }
            if !text::starts_with(v[i].as_str(), ".") && is_folder_sidecar(v[i].as_str()) {
                let name = v[i].clone();
                proof {
                    text::views_push(out@, name);
                }
                out.push(name);
            }
            i = i + 1;
        }
        assert(text::views(v@).take(i as int) == text::views(v@));
    }
    out
}

/// The moves, the skipped files and the number of kept ones that fates make.
struct Outcome {
    moves: Vec<FileMove>,
    skipped: Vec<(String, String)>,
    kept: usize,
}

fn carry_out(
    from: &Vec<String>,
    to: &Vec<String>,
    fates: &Vec<Fate>,
    sidecars: Vec<Vec<String>>,
) -> (r: Outcome)
    requires
        from@.len() == to@.len() == fates@.len() == sidecars@.len(),
    ensures
        ({
            let f = text::views(from@);
            let t = text::views(to@);
            let s = Seq::new(sidecars@.len(), |i: int| text::views(sidecars@[i]@));
            let n = from@.len() as int;
            &&& move_views(r.moves@) == moves_of(f, t, fates@, s, n)
            &&& pair_views(r.skipped@) == skips_of(f, fates@, n)
            &&& r.kept == count_of(fates@, Fate::Kept, n)
        }),
{
    let ghost f = text::views(from@);
    let ghost t = text::views(to@);
    let ghost s = Seq::new(sidecars@.len(), |i: int| text::views(sidecars@[i]@));
    let ghost all = sidecars@;
    let mut rest = sidecars;
    let mut out = Outcome { moves: Vec::new(), skipped: Vec::new(), kept: 0 };
    let mut i: usize = 0;
    assert(move_views(out.moves@) == moves_of(f, t, fates@, s, 0));
    assert(pair_views(out.skipped@) == skips_of(f, fates@, 0));
    while i < from.len()
        invariant
            i <= from@.len(),
            from@.len() == to@.len() == fates@.len() == all.len(),
            rest@.len() == all.len(),
            forall|k: int| i <= k < all.len() ==> rest@[k] == all[k],
            f == text::views(from@),
            t == text::views(to@),
            s == Seq::new(all.len(), |k: int| text::views(all[k]@)),
            move_views(out.moves@) == moves_of(f, t, fates@, s, i as int),
            pair_views(out.skipped@) == skips_of(f, fates@, i as int),
            out.kept == count_of(fates@, Fate::Kept, i as int),
            out.kept <= i,
        decreases from@.len() - i,
    {
        match fates[i] {
            Fate::Moved => {
                let mut mine: Vec<String> = Vec::new();
                std::mem::swap(&mut rest[i], &mut mine);
                let ghost before = out.moves@;
                out.moves.push(
                    FileMove { from: from[i].clone(), to: to[i].clone(), sidecars: mine },
                );
                proof {
                    assert(s[i as int] == text::views(all[i as int]@));
                    assert(out.moves@.last()@ =~= MoveView {
                        from: f[i as int],
                        to: t[i as int],
                        sidecars: s[i as int],
                    });
                    assert(move_views(out.moves@) == move_views(before).push(out.moves@.last()@));
                }
            },
            Fate::NameTaken => {
                let ghost before = out.skipped@;
                out.skipped.push((from[i].clone(), text::copy("duplicate target name")));
                proof {
                    assert(pair_views(out.skipped@) == pair_views(before).push(
                        (f[i as int], "duplicate target name"@),
                    ));
                }
            },
            Fate::TargetExists => {
                let ghost before = out.skipped@;
                out.skipped.push((from[i].clone(), text::copy("target file already exists")));
                proof {
                    assert(pair_views(out.skipped@) == pair_views(before).push(
                        (f[i as int], "target file already exists"@),
                    ));
                }
            },
            Fate::Kept => {
                out.kept = out.kept + 1;
            },
            Fate::Loser => {},
        }
        i = i + 1;
    }
    out
}

/// Builds the change plan for one album folder, given its sidecars and what is on disk.
pub fn build_plan(
    album: &AlbumDir,
    cfg: &Config,
    nfo: &Option<NfoAlbum>,
    artist: &Option<NfoArtist>,
    disk: &Disk,
) -> (r: AlbumPlan)
    requires
        album.tracks@.len() > 0,
    ensures
        r@ == album_plan(
            *album,
            info_with_sidecars(*album, cfg.read_nfo, nfo_view(*nfo), artist_view(*artist)),
            *cfg,
            *disk,
        ),
{
    let info = album_info_with_nfo(album, cfg, nfo, artist);
    let bucket = classify(&info, cfg);
    let title: String = match &album.tracks[0].tags {
        Some(t) => t.title.clone(),
        None => parse_file_name(album.tracks[0].name.as_str()).1,
    };
    let dir = target_album_dir(bucket, &info, cfg, title.as_str());
    let here = disk.names_in(album.dir.as_str());
    let dir_sidecars: Vec<String> = if equal_but_case(album.dir.as_str(), dir.as_str()) {
        Vec::new()
    } else {
        folder_files_in(here)
    };
    let n: usize = album.tracks.len();
    let mut from: Vec<String> = Vec::new();
    let mut to: Vec<String> = Vec::new();
    let mut losers: Vec<bool> = Vec::new();
    let mut sidecars: Vec<Vec<String>> = Vec::new();
    let ghost src = track_sources(*album);
    let ghost dst = track_targets(*album, info@, *cfg, dir@);
    let ghost with = track_companions(*album, *cfg, *disk);
    let mut i: usize = 0;
    while i < n
        invariant
            i <= n == album.tracks@.len(),
            from@.len() == i,
            to@.len() == i,
            losers@.len() == i,
            sidecars@.len() == i,
            src == track_sources(*album),
            dst == track_targets(*album, info@, *cfg, dir@),
            with == track_companions(*album, *cfg, *disk),
            match here {
                Some(v) => text::views(v@) == disk.names(album.dir@),
                None => disk.names(album.dir@).len() == 0,
            },
            forall|k: int| 0 <= k < i ==> (#[trigger] from@[k])@ == src[k],
            forall|k: int| 0 <= k < i ==> (#[trigger] to@[k])@ == dst[k],
            forall|k: int| 0 <= k < i ==> !(#[trigger] losers@[k]),
            forall|k: int| 0 <= k < i ==> text::views((#[trigger] sidecars@[k])@) == with[k],
        decreases n - i,
    {
        let track = &album.tracks[i];
        let fields = track_fields(track, &info);
        let recording: Recording = match &track.tags {
            Some(t) => t.recording,
            None => Recording::Studio,
        };
        let name = file_target_text(cfg, &fields, recording, track.name.as_str());
        from.push(join_rel(album.dir.as_str(), track.name.as_str()));
        to.push(join_rel(dir.as_str(), name.as_str()));
        losers.push(false);
        let mut mine: Vec<String> = Vec::new();
        assert(text::views(mine@) == Seq::<Seq<char>>::empty());
        if cfg.rename_sidecars {
            let s = stem_of(track.name.as_str());
            mine = companions_in(here, s.as_str());
            proof {
                if here is None {
                    assert(disk.names(album.dir@) == Seq::<Seq<char>>::empty());
                }
            }
        }
        sidecars.push(mine);
        i = i + 1;
    }
    let guard: bool = text::length(dir.as_str()) > 0;
    let fates = decide_fates(&from, &to, &losers, &disk.existing, guard);
    proof {
        assert(text::views(from@) == src);
        assert(text::views(to@) == dst);
        assert(losers@ == no_losers(n as nat));
        assert(fates@ == fates_of(src, dst, no_losers(n as nat), disk.paths(), guard));
        assert(Seq::new(sidecars@.len(), |k: int| text::views(sidecars@[k]@)) == with);
        if here is None {
            assert(disk.names(album.dir@) == Seq::<Seq<char>>::empty());
        }
    }
    let out = carry_out(&from, &to, &fates, sidecars);
    AlbumPlan {
        bucket,
        current_dir: album.dir.clone(),
        target_dir: dir,
        moves: out.moves,
        dir_sidecars,
        keeps: out.kept,
        skipped: out.skipped,
    }
}

// ---------------------------------------------------------------------------
// Grouping by metadata

/// A file with its tags.
pub open spec fn file_views(files: Seq<(String, TrackTags)>) -> Seq<(Seq<char>, TagsView)> {
    Seq::new(files.len(), |i: int| (files[i].0@, files[i].1@))
}

/// Trimmed and in lower case.
pub open spec fn normal(s: Seq<char>) -> Seq<char> {
    text::lowered(text::trimmed(s))
}

pub fn norm(s: &str) -> (r: String)
    ensures
        r@ == normal(s@),
{
    let t = text::trim(s);
    text::lower(t.as_str())
}

/// The year as text, empty where it is missing.
pub open spec fn year_text(y: Option<u32>) -> Seq<char> {
    template::number_value(y)
}

/// What makes files belong to the same album: the album's MusicBrainz id, or else album artist,
/// album and year; empty where the tags name no album.
pub open spec fn album_key(t: TagsView) -> Seq<char> {
    if text::trimmed(t.mbid_album).len() > 0 {
        "mb:"@ + normal(t.mbid_album)
    } else if normal(t.album_artist).len() > 0 && normal(t.album).len() > 0 {
        "a:"@ + normal(t.album_artist) + "|"@ + normal(t.album) + "|"@ + year_text(t.year)
    } else {
        Seq::empty()
    }
}

/// The key that decides whether files belong to the same album.
pub fn group_key(t: &TrackTags) -> (r: String)
    ensures
        r@ == album_key(t@),
{
    let mbid = text::trim(t.mbid_album.as_str());
    if text::length(mbid.as_str()) > 0 {
        let low = text::lower(mbid.as_str());
        return text::join_two("mb:", low.as_str());
    }
    let artist = norm(t.album_artist.as_str());
    let album = norm(t.album.as_str());
    if text::length(artist.as_str()) > 0 && text::length(album.as_str()) > 0 {
        let mut out = text::copy("a:");
        out.append(artist.as_str());
        out.append("|");
        out.append(album.as_str());
        out.append("|");
        if let Some(y) = t.year {
            let year = text::format_nat(y as u64);
            out.append(year.as_str());
        } else {
            assert(out@ + Seq::<char>::empty() == out@);
        }
        out
    } else {
        String::new()
    }
}

/// The key of a file: that of its album, or its folder where the tags name no album.
pub open spec fn file_key(f: (Seq<char>, TagsView)) -> Seq<char> {
    if album_key(f.1).len() > 0 {
        album_key(f.1)
    } else {
        "f:"@ + parent(f.0)
    }
}

pub open spec fn file_keys(files: Seq<(Seq<char>, TagsView)>) -> Seq<Seq<char>> {
    Seq::new(files.len(), |i: int| file_key(files[i]))
}

/// The different keys, in order of appearance.
pub open spec fn distinct(keys: Seq<Seq<char>>) -> Seq<Seq<char>>
    decreases keys.len(),
{
    if keys.len() == 0 {
        keys
    } else {
        let before = distinct(keys.drop_last());
        if before.contains(keys.last()) {
            before
        } else {
            before.push(keys.last())
        }
    }
}

/// The paths of the files with the given key, in order.
pub open spec fn members(files: Seq<(Seq<char>, TagsView)>, key: Seq<char>) -> Seq<Seq<char>>
    decreases files.len(),
{
    if files.len() == 0 {
        Seq::empty()
    } else {
        let before = members(files.drop_last(), key);
        if file_key(files.last()) == key {
            before.push(files.last().0)
        } else {
            before
        }
    }
}

/// One group of paths for each key, in order of appearance.
pub open spec fn groups_of(files: Seq<(Seq<char>, TagsView)>) -> Seq<Seq<Seq<char>>> {
    let keys = distinct(file_keys(files));
    Seq::new(keys.len(), |i: int| members(files, keys[i]))
}

/// Smaller groups come first; groups of one size in the order of their first paths.
pub open spec fn group_before() -> spec_fn(Seq<Seq<char>>, Seq<Seq<char>>) -> bool {
    |a: Seq<Seq<char>>, b: Seq<Seq<char>>|
        a.len() < b.len() || (a.len() == b.len() && order::text_before(a[0], b[0]))
}

/// The albums that a number of files make, as groups of paths.
pub open spec fn grouped(files: Seq<(Seq<char>, TagsView)>) -> Seq<Seq<Seq<char>>> {
    order::sorted_by(groups_of(files), group_before())
}

pub open spec fn list_views(v: Seq<Vec<String>>) -> Seq<Seq<Seq<char>>> {
    Seq::new(v.len(), |i: int| text::views(v[i]@))
}

fn file_key_text(path: &str, t: &TrackTags) -> (r: String)
    ensures
        r@ == file_key((path@, t@)),
{
    let key = group_key(t);
    if text::length(key.as_str()) > 0 {
        key
    } else {
        let folder = parent_of(path);
        text::join_two("f:", folder.as_str())
    }
}

proof fn distinct_holds(keys: Seq<Seq<char>>)
    ensures
        distinct(keys).no_duplicates(),
        forall|k: Seq<char>|
            #![trigger distinct(keys).contains(k)]
            #![trigger keys.contains(k)]
            distinct(keys).contains(k) == keys.contains(k),
    decreases keys.len(),
{
    if keys.len() > 0 {
        let front = keys.drop_last();
        let before = distinct(front);
        distinct_holds(front);
        assert forall|k: Seq<char>|
            #![trigger distinct(keys).contains(k)]
            #![trigger keys.contains(k)]
            distinct(keys).contains(k) == keys.contains(k) by {
            if keys.contains(k) {
                let i = choose|i: int| 0 <= i < keys.len() && keys[i] == k;
                if i < front.len() {
                    assert(front[i] == k);
                    assert(front.contains(k));
                    let j = choose|j: int| 0 <= j < before.len() && before[j] == k;
                    assert(distinct(keys)[j] == k);
                } else if before.contains(k) {
                    let j = choose|j: int| 0 <= j < before.len() && before[j] == k;
                    assert(distinct(keys)[j] == k);
                } else {
                    assert(distinct(keys)[before.len() as int] == k);
                }
            }
            if distinct(keys).contains(k) {
                let j = choose|j: int| 0 <= j < distinct(keys).len() && distinct(keys)[j] == k;
                if j < before.len() {
                    assert(before[j] == k);
                    assert(before.contains(k));
                    let i = choose|i: int| 0 <= i < front.len() && front[i] == k;
                    assert(keys[i] == k);
                } else {
                    assert(keys[keys.len() - 1] == k);
                }
            }
        }
    } else {
        assert(forall|k: Seq<char>| !keys.contains(k));
    }
}

/// Groups file paths into albums by their tags. Files without album metadata are grouped by
/// folder, so that unrelated loose files stay apart.
pub fn group_entries(entries: &Vec<(String, TrackTags)>) -> (r: Vec<Vec<String>>)
    ensures
        list_views(r@) == grouped(file_views(entries@)),
{
    let ghost files = file_views(entries@);
    let mut keys: Vec<String> = Vec::new();
    let mut groups: Vec<Vec<String>> = Vec::new();
    let mut i: usize = 0;
    proof {
        assert(file_keys(files.take(0)) == Seq::<Seq<char>>::empty());
        assert(text::views(keys@) == Seq::<Seq<char>>::empty());
    }
    while i < entries.len()
        invariant
            i <= entries@.len(),
            files == file_views(entries@),
            keys@.len() == groups@.len(),
            text::views(keys@) == distinct(file_keys(files.take(i as int))),
            forall|k: int|
                0 <= k < groups@.len() ==> text::views((#[trigger] groups@[k])@) == members(
                    files.take(i as int),
                    keys@[k]@,
                ),
        decreases entries@.len() - i,
    {
        let key = file_key_text(entries[i].0.as_str(), &entries[i].1);
        let ghost now = files.take(i as int);
        let ghost next = files.take(i + 1);
        proof {
            assert(next.drop_last() == now);
            assert(next.last() == files[i as int]);
            assert(file_keys(next).drop_last() == file_keys(now));
            assert(file_keys(next).last() == key@);
            distinct_holds(file_keys(now));
        }
        match position_of(&keys, key.as_str()) {
            Some(j) => {
                let path = entries[i].0.clone();
                let ghost before = groups@;
                proof {
                    text::views_push(groups@[j as int]@, path);
                    assert(text::views(keys@)[j as int] == key@);
                    assert(text::views(keys@).contains(key@));
                }
                groups[j].push(path);
                proof {
                    assert forall|k: int| 0 <= k < groups@.len() implies text::views(
                        (#[trigger] groups@[k])@,
                    ) == members(next, keys@[k]@) by {
                        if k != j {
                            assert(groups@[k] == before[k]);
                            assert(text::views(keys@)[k] != text::views(keys@)[j as int]);
                        }
                    }
                }
            },
            None => {
                let mut fresh: Vec<String> = Vec::new();
                let path = entries[i].0.clone();
                proof {
                    no_members(now, key@);
                    text::views_push(fresh@, path);
                    text::views_push(keys@, key);
                    assert(text::views(fresh@) == Seq::<Seq<char>>::empty());
                }
                fresh.push(path);
                let ghost old_groups = groups@;
                let ghost old_keys = keys@;
                keys.push(key);
                groups.push(fresh);
                proof {
                    assert forall|k: int| 0 <= k < groups@.len() implies text::views(
                        (#[trigger] groups@[k])@,
                    ) == members(next, keys@[k]@) by {
                        if k < old_groups.len() {
                            assert(groups@[k] == old_groups[k]);
                            assert(keys@[k] == old_keys[k]);
                            assert(text::views(old_keys)[k] == old_keys[k]@);
                            assert(text::views(old_keys).contains(old_keys[k]@));
                        }
                    }
                }
            },
        }
        i = i + 1;
    }
    proof {
        assert(files.take(i as int) == files);
        assert(list_views(groups@) == groups_of(files)) by {
            assert forall|k: int| 0 <= k < groups@.len() implies text::views(
                (#[trigger] groups@[k])@,
            ) == members(files, distinct(file_keys(files))[k]) by {
                assert(text::views(keys@)[k] == keys@[k]@);
            }
        }
        groups_have_members(files);
    }
    sort_groups(groups)
}

/// Where a text stands in a list.
fn position_of(list: &Vec<String>, s: &str) -> (r: Option<usize>)
    ensures
        match r {
            Some(i) => i < list@.len() && list@[i as int]@ == s@,
            None => !text::views(list@).contains(s@),
        },
{
    let mut i: usize = 0;
    while i < list.len()
        invariant
            i <= list@.len(),
            forall|k: int| 0 <= k < i ==> text::views(list@)[k] != s@,
        decreases list@.len() - i,
    {
        assert(text::views(list@)[i as int] == list@[i as int]@);
        if text::same(list[i].as_str(), s) {
            return Some(i);
        }
        i = i + 1;
    }
    assert(!text::views(list@).contains(s@));
    None
}

proof fn no_members(files: Seq<(Seq<char>, TagsView)>, key: Seq<char>)
    requires
        !distinct(file_keys(files)).contains(key),
    ensures
        members(files, key).len() == 0,
        members(files, key) == Seq::<Seq<char>>::empty(),
    decreases files.len(),
{
    if files.len() > 0 {
        distinct_holds(file_keys(files));
        distinct_holds(file_keys(files.drop_last()));
        assert(file_keys(files).drop_last() == file_keys(files.drop_last()));
        assert(file_keys(files)[files.len() - 1] == file_key(files.last()));
        assert(file_keys(files).contains(file_key(files.last())));
        if file_keys(files.drop_last()).contains(key) {
            let i = choose|i: int|
                0 <= i < file_keys(files.drop_last()).len() && file_keys(files.drop_last())[i] == key;
            assert(file_keys(files)[i] == key);
        }
        no_members(files.drop_last(), key);
    }
}

/// Every group has a file.
proof fn groups_have_members(files: Seq<(Seq<char>, TagsView)>)
    ensures
        forall|k: int| 0 <= k < groups_of(files).len() ==> (#[trigger] groups_of(files)[k]).len() > 0,
{
    let keys = distinct(file_keys(files));
    distinct_holds(file_keys(files));
    assert forall|k: int| 0 <= k < groups_of(files).len() implies (
    #[trigger] groups_of(files)[k]).len() > 0 by {
        assert(keys.contains(keys[k]));
        let i = choose|i: int| 0 <= i < file_keys(files).len() && file_keys(files)[i] == keys[k];
        member_is_there(files, i);
    }
}

/// A file is in the group of its key.
proof fn member_is_there(files: Seq<(Seq<char>, TagsView)>, i: int)
    requires
        0 <= i < files.len(),
    ensures
        members(files, file_key(files[i])).contains(files[i].0),
        members(files, file_key(files[i])).len() > 0,
    decreases files.len(),
{
    let key = file_key(files[i]);
    let all = members(files, key);
    if i < files.len() - 1 {
        member_is_there(files.drop_last(), i);
        let before = members(files.drop_last(), key);
        let k = choose|k: int| 0 <= k < before.len() && before[k] == files[i].0;
        assert(all[k] == files[i].0);
    } else {
        assert(all[all.len() - 1] == files[i].0);
    }
}

fn sort_groups(groups: Vec<Vec<String>>) -> (r: Vec<Vec<String>>)
    requires
        forall|k: int| 0 <= k < groups@.len() ==> (#[trigger] list_views(groups@)[k]).len() > 0,
    ensures
        list_views(r@) == order::sorted_by(list_views(groups@), group_before()),
{
    let ghost all = list_views(groups@);
    let mut rest = groups;
    let mut out: Vec<Vec<String>> = Vec::new();
    let mut i: usize = 0;
    let n: usize = rest.len();
    let ghost given = rest@;
    assert(all.take(0) == Seq::<Seq<Seq<char>>>::empty());
    assert(list_views(out@) == Seq::<Seq<Seq<char>>>::empty());
    while i < n
        invariant
            i <= n == given.len(),
            rest@.len() == n,
            all == list_views(given),
            forall|k: int| i <= k < n ==> rest@[k] == given[k],
            forall|k: int| 0 <= k < all.len() ==> (#[trigger] all[k]).len() > 0,
            forall|k: int| 0 <= k < out@.len() ==> (#[trigger] out@[k])@.len() > 0,
            list_views(out@) == order::sorted_by(all.take(i as int), group_before()),
        decreases n - i,
    {
        let mut group: Vec<String> = Vec::new();
        std::mem::swap(&mut rest[i], &mut group);
        let ghost g = text::views(group@);
        let ghost done = list_views(out@);
        proof {
            assert(all[i as int] == g);
            assert(all.take(i + 1).drop_last() == all.take(i as int));
            assert(all.take(i + 1).last() == g);
        }
        let mut k: usize = out.len();
        while k > 0 && group_comes_before(&group, &out[k - 1])
            invariant
                k <= out@.len(),
                g == text::views(group@),
                group@.len() > 0,
                done == list_views(out@),
                forall|j: int| 0 <= j < out@.len() ==> (#[trigger] out@[j])@.len() > 0,
                forall|j: int| k <= j < out@.len() ==> group_before()(g, #[trigger] done[j]),
            decreases k,
        {
            assert(done[k - 1] == text::views(out@[k - 1]@));
            k = k - 1;
        }
        proof {
            if k > 0 {
                assert(done[k - 1] == text::views(out@[k - 1]@));
            }
            order::inserted_at(done, g, group_before(), k as int);
        }
        out.insert(k, group);
        assert(list_views(out@) == done.insert(k as int, g));
        i = i + 1;
    }
    assert(all.take(i as int) == all);
    out
}

fn group_comes_before(a: &Vec<String>, b: &Vec<String>) -> (r: bool)
    requires
        a@.len() > 0,
        b@.len() > 0,
    ensures
        r == group_before()(text::views(a@), text::views(b@)),
{
    a.len() < b.len() || (a.len() == b.len() && order::comes_before(a[0].as_str(), b[0].as_str()))
}

/// How many paths the groups hold together.
pub open spec fn total(groups: Seq<Seq<Seq<char>>>) -> nat
    decreases groups.len(),
{
    if groups.len() == 0 {
        0
    } else {
        total(groups.drop_last()) + groups.last().len()
    }
}

proof fn total_of_push(groups: Seq<Seq<Seq<char>>>, g: Seq<Seq<char>>)
    ensures
        total(groups.push(g)) == total(groups) + g.len(),
{
    assert(groups.push(g).drop_last() == groups);
}

proof fn total_of_inserted(
    groups: Seq<Seq<Seq<char>>>,
    g: Seq<Seq<char>>,
    before: spec_fn(Seq<Seq<char>>, Seq<Seq<char>>) -> bool,
)
    ensures
        total(order::inserted(groups, g, before)) == total(groups) + g.len(),
    decreases groups.len(),
{
    if groups.len() > 0 && before(g, groups.last()) {
        total_of_inserted(groups.drop_last(), g, before);
        total_of_push(order::inserted(groups.drop_last(), g, before), groups.last());
    } else {
        total_of_push(groups, g);
    }
}

proof fn total_of_sorted(
    groups: Seq<Seq<Seq<char>>>,
    before: spec_fn(Seq<Seq<char>>, Seq<Seq<char>>) -> bool,
)
    ensures
        total(order::sorted_by(groups, before)) == total(groups),
    decreases groups.len(),
{
    if groups.len() > 0 {
        total_of_sorted(groups.drop_last(), before);
        total_of_inserted(
            order::sorted_by(groups.drop_last(), before),
            groups.last(),
            before,
        );
    }
}

spec fn groups_for(files: Seq<(Seq<char>, TagsView)>, keys: Seq<Seq<char>>) -> Seq<Seq<Seq<char>>> {
    Seq::new(keys.len(), |i: int| members(files, keys[i]))
}

/// One more file adds to the total exactly where its key is among the keys.
proof fn total_grows(files: Seq<(Seq<char>, TagsView)>, keys: Seq<Seq<char>>)
    requires
        files.len() > 0,
        keys.no_duplicates(),
    ensures
        total(groups_for(files, keys)) == total(groups_for(files.drop_last(), keys)) + if keys.contains(
            file_key(files.last()),
        ) {
            1nat
        } else {
            0nat
        },
    decreases keys.len(),
{
    let front = files.drop_last();
    let key = file_key(files.last());
    if keys.len() > 0 {
        let less = keys.drop_last();
        assert(less.no_duplicates());
        total_grows(files, less);
        assert(groups_for(files, keys).drop_last() == groups_for(files, less));
        assert(groups_for(front, keys).drop_last() == groups_for(front, less));
        if keys.last() == key {
            assert(keys[keys.len() - 1] == key);
            assert(!less.contains(key)) by {
                if less.contains(key) {
                    let i = choose|i: int| 0 <= i < less.len() && less[i] == key;
                    assert(keys[i] == keys[keys.len() - 1]);
                }
            }
        } else {
            assert(less.contains(key) == keys.contains(key)) by {
                if keys.contains(key) {
                    let i = choose|i: int| 0 <= i < keys.len() && keys[i] == key;
                    assert(less[i] == key);
                }
                if less.contains(key) {
                    let i = choose|i: int| 0 <= i < less.len() && less[i] == key;
                    assert(keys[i] == key);
                }
            }
        }
    }
}

proof fn total_is_all(files: Seq<(Seq<char>, TagsView)>)
    ensures
        total(groups_of(files)) == files.len(),
    decreases files.len(),
{
    let keys = distinct(file_keys(files));
    distinct_holds(file_keys(files));
    if files.len() == 0 {
        assert(keys.len() == 0);
    } else {
        let front = files.drop_last();
        let old_keys = distinct(file_keys(front));
        let key = file_key(files.last());
        total_is_all(front);
        assert(file_keys(files).drop_last() == file_keys(front));
        assert(file_keys(files).last() == key);
        total_grows(files, keys);
        assert(groups_of(files) == groups_for(files, keys));
        assert(groups_of(front) == groups_for(front, old_keys));
        assert(file_keys(files)[files.len() - 1] == key);
        assert(file_keys(files).contains(key));
        assert(keys.contains(key));
        if !old_keys.contains(key) {
            no_members(front, key);
            assert(groups_for(front, keys).drop_last() == groups_for(front, old_keys));
            assert(groups_for(front, keys).last().len() == 0);
        }
    }
}

/// Grouping is by metadata and loses nothing: each file is in the group of its key and in no
/// other, and there is one group for each key.
pub proof fn grouping_is_a_partition(files: Seq<(Seq<char>, TagsView)>)
    ensures
        forall|i: int|
            0 <= i < files.len() ==> {
                &&& grouped(files).contains(members(files, file_key(#[trigger] files[i])))
                &&& members(files, file_key(files[i])).contains(files[i].0)
            },
        forall|g: Seq<Seq<char>>|
            #[trigger] grouped(files).contains(g) ==> exists|i: int|
                0 <= i < files.len() && g == members(files, file_key(#[trigger] files[i])),
        total(grouped(files)) == files.len(),
        grouped(files).len() == distinct(file_keys(files)).len(),
{
    let groups = groups_of(files);
    let keys = distinct(file_keys(files));
    order::sorting_keeps_elements(groups, group_before());
    order::sorting_permutes(groups, group_before());
    distinct_holds(file_keys(files));
    total_is_all(files);
    total_of_sorted(groups, group_before());
    assert forall|i: int| 0 <= i < files.len() implies {
        &&& grouped(files).contains(members(files, file_key(#[trigger] files[i])))
        &&& members(files, file_key(files[i])).contains(files[i].0)
    } by {
        let key = file_key(files[i]);
        assert(file_keys(files)[i] == key);
        assert(file_keys(files).contains(key));
        let k = choose|k: int| 0 <= k < keys.len() && keys[k] == key;
        assert(groups[k] == members(files, key));
        assert(groups.contains(members(files, key)));
        member_is_there(files, i);
    }
    assert forall|g: Seq<Seq<char>>| #[trigger] grouped(files).contains(g) implies exists|i: int|
        0 <= i < files.len() && g == members(files, file_key(#[trigger] files[i])) by {
        assert(groups.contains(g));
        let k = choose|k: int| 0 <= k < groups.len() && groups[k] == g;
        assert(keys.contains(keys[k]));
        let i = choose|i: int| 0 <= i < file_keys(files).len() && file_keys(files)[i] == keys[k];
        assert(file_key(files[i]) == keys[k]);
    }
}

/// Files whose tags name the same album (and, without an id, the same album artist and year)
/// share a group wherever they lie.
pub proof fn same_album_same_group(a: (Seq<char>, TagsView), b: (Seq<char>, TagsView))
    requires
        album_key(a.1).len() > 0,
        normal(a.1.mbid_album) == normal(b.1.mbid_album),
        normal(a.1.album_artist) == normal(b.1.album_artist),
        normal(a.1.album) == normal(b.1.album),
        a.1.year == b.1.year,
    ensures
        file_key(a) == file_key(b),
{
    assert(text::trimmed(a.1.mbid_album).len() == normal(a.1.mbid_album).len());
    assert(text::trimmed(b.1.mbid_album).len() == normal(b.1.mbid_album).len());
}

/// The groups come smallest first, groups of one size in the order of their first paths.
pub proof fn groups_are_sorted(files: Seq<(Seq<char>, TagsView)>)
    ensures
        order::in_order(grouped(files), group_before()),
{
    let f = group_before();
    assert(order::weak_order(f)) by {
        assert forall|a: Seq<Seq<char>>, b: Seq<Seq<char>>| #[trigger] f(a, b) implies !f(b, a) by {
            order::before_is_strict(a[0], b[0]);
        }
        assert forall|a: Seq<Seq<char>>, b: Seq<Seq<char>>, c: Seq<Seq<char>>|
            #[trigger] f(a, b) && #[trigger] f(b, c) implies f(a, c) by {
            order::before_chains(a[0], b[0], c[0]);
        }
        assert forall|a: Seq<Seq<char>>, b: Seq<Seq<char>>, c: Seq<Seq<char>>|
            #![trigger f(a, c), f(a, b)]
            #![trigger f(a, c), f(b, c)]
            f(a, c) implies f(a, b) || f(b, c) by {
            order::before_splits(a[0], b[0], c[0]);
        }
    }
    order::sorting_orders(groups_of(files), f);
}

// ---------------------------------------------------------------------------
// Filler tracks

/// Whether a keyword stands in a title as a whole word. Both are in lower case.
pub open spec fn word_in(t: Seq<char>, k: Seq<char>) -> bool {
    ||| t == k
    ||| text::begins(t, k + " "@)
    ||| text::ends(t, " "@ + k)
    ||| text::has(t, " "@ + k + " "@)
    ||| text::begins(t, k + "-"@)
    ||| text::begins(t, k + ":"@)
    ||| text::has(t, "("@ + k + ")"@)
    ||| text::has(t, "["@ + k + "]"@)
}

/// Whether a title is that of a filler track (intro, outro, interlude, ...).
pub open spec fn filler(title: Seq<char>, keywords: Seq<Seq<char>>) -> bool {
    normal(title).len() > 0 && exists|i: int|
        0 <= i < keywords.len() && normal(#[trigger] keywords[i]).len() > 0 && word_in(
            normal(title),
            normal(keywords[i]),
        )
}

fn has_word(t: &str, k: &str) -> (r: bool)
    ensures
        r == word_in(t@, k@),
{
    let k_space = text::join_two(k, " ");
    let space_k = text::join_two(" ", k);
    let space_k_space = text::join_two(space_k.as_str(), " ");
    let k_dash = text::join_two(k, "-");
    let k_colon = text::join_two(k, ":");
    let open_round = text::join_two("(", k);
    let round = text::join_two(open_round.as_str(), ")");
    let open_square = text::join_two("[", k);
    let square = text::join_two(open_square.as_str(), "]");
    text::same(t, k) || text::starts_with(t, k_space.as_str()) || text::ends_with(
        t,
        space_k.as_str(),
    ) || text::contains(t, space_k_space.as_str()) || text::starts_with(t, k_dash.as_str())
        || text::starts_with(t, k_colon.as_str()) || text::contains(t, round.as_str())
        || text::contains(t, square.as_str())
}

/// Recognizes filler tracks by title: a keyword has to stand there as a whole word, so that
/// "Interlude (Live)" and "The Intro" count and "Introspection" does not.
pub fn is_filler(title: &str, keywords: &[String]) -> (r: bool)
    ensures
        r == filler(title@, text::views(keywords@)),
{
    let t = norm(title);
    if text::length(t.as_str()) == 0 {
        return false;
    }
    let ghost views = text::views(keywords@);
    let mut i: usize = 0;
    while i < keywords.len()
        invariant
            i <= keywords@.len(),
            views == text::views(keywords@),
            t@ == normal(title@),
            t@.len() > 0,
            forall|k: int|
                0 <= k < i ==> !(normal(#[trigger] views[k]).len() > 0 && word_in(
                    t@,
                    normal(views[k]),
                )),
        decreases keywords@.len() - i,
    {
        assert(views[i as int] == keywords@[i as int]@);
        let k = norm(keywords[i].as_str());
        if text::length(k.as_str()) > 0 && has_word(t.as_str(), k.as_str()) {
            return true;
        }
        i = i + 1;
    }
    false
}

/// The filler keywords of a configuration.
pub fn filler_keyword_list(cfg: &Config) -> (r: Vec<String>)
    ensures
        text::views(r@) == crate::config::filled_texts(
            text::split_by(cfg.filler_keywords@, text::among(","@)),
        ),
{
    let parts = text::split(cfg.filler_keywords.as_str(), ",");
    crate::config::fill_texts(&parts)
}

// ---------------------------------------------------------------------------
// Duplicates

/// A confirmed duplicate: same album, artist, title, track and file size.
#[derive(Debug, Clone)]
pub struct Duplicate {
    pub winner: String,
    pub loser: String,
    /// Where the loser is moved: the artist's singles folder, under a free name.
    pub target: String,
}

/// The mathematical value of a duplicate.
#[verifier::ext_equal]
pub struct DuplicateView {
    pub winner: Seq<char>,
    pub loser: Seq<char>,
    pub target: Seq<char>,
}

impl View for Duplicate {
    type V = DuplicateView;

    open spec fn view(&self) -> DuplicateView {
        DuplicateView { winner: self.winner@, loser: self.loser@, target: self.target@ }
    }
}

pub open spec fn duplicate_views(v: Seq<Duplicate>) -> Seq<DuplicateView> {
    Seq::new(v.len(), |i: int| v[i]@)
}

/// What two files have in common to be the same version of a song: album artist, album, title
/// and track number. A file without title or track number is compared with none.
pub open spec fn song_key(t: TagsView) -> Option<Seq<char>> {
    match t.track {
        Some(n) => if text::trimmed(t.title).len() > 0 {
            Some(
                "t:"@ + normal(t.album_artist) + "|"@ + normal(t.album) + "|"@ + normal(t.title)
                    + "|"@ + text::decimal(n as nat),
            )
        } else {
            None
        },
        None => None,
    }
}

pub open spec fn song_keys(files: Seq<(Seq<char>, TagsView)>) -> Seq<Option<Seq<char>>> {
    Seq::new(files.len(), |i: int| song_key(files[i].1))
}

pub open spec fn sizes_of(files: Seq<(Seq<char>, TagsView)>, disk: Disk) -> Seq<u64> {
    Seq::new(files.len(), |i: int| disk.size(files[i].0))
}

/// Whether two files are the same version of a song.
pub open spec fn same_song(keys: Seq<Option<Seq<char>>>, i: int, j: int) -> bool {
    keys[i] is Some && keys[i] == keys[j]
}

/// Whether two files are confirmed duplicates: the same version of a song, and of one size.
pub open spec fn twins(keys: Seq<Option<Seq<char>>>, sizes: Seq<u64>, i: int, j: int) -> bool {
    same_song(keys, i, j) && sizes[i] == sizes[j]
}

/// Whether a file loses: it is a confirmed duplicate of an earlier one. Different sizes mean
/// different quality, and then both are kept.
pub open spec fn loses(keys: Seq<Option<Seq<char>>>, sizes: Seq<u64>, i: int) -> bool {
    exists|j: int| 0 <= j < i && #[trigger] twins(keys, sizes, j, i)
}

pub open spec fn losers_of(keys: Seq<Option<Seq<char>>>, sizes: Seq<u64>) -> Seq<bool> {
    Seq::new(keys.len(), |i: int| loses(keys, sizes, i))
}

/// The losers among the first `n` files that lose against file `w`.
pub open spec fn losers_against(
    keys: Seq<Option<Seq<char>>>,
    sizes: Seq<u64>,
    w: int,
    n: int,
) -> Seq<int>
    decreases n,
{
    if n <= 0 {
        Seq::empty()
    } else {
        let before = losers_against(keys, sizes, w, n - 1);
        if w < n - 1 && twins(keys, sizes, w, n - 1) {
            before.push(n - 1)
        } else {
            before
        }
    }
}

/// Pairs of winner and loser where the winner is among the first `m` files, winner by winner. The
/// winner is the first of the files that are duplicates of each other.
pub open spec fn pairs_of(keys: Seq<Option<Seq<char>>>, sizes: Seq<u64>, m: int) -> Seq<(int, int)>
    decreases m,
{
    if m <= 0 {
        Seq::empty()
    } else {
        let before = pairs_of(keys, sizes, m - 1);
        if loses(keys, sizes, m - 1) {
            before
        } else {
            let mine = losers_against(keys, sizes, m - 1, keys.len() as int);
            before + Seq::new(mine.len(), |i: int| (m - 1, mine[i]))
        }
    }
}

/// The folder for an artist's singles. The artist's name is one component of it.
pub open spec fn singles_dir(cfg: Config, album_artist: Seq<char>) -> Seq<char> {
    or_else(
        template::sanitized(text::trimmed(album_artist), options(cfg)),
        cfg.various_folder@,
    ) + "/"@ + cfg.singles_folder@
}

/// A path inside the singles folder.
pub open spec fn single_path(dir: Seq<char>, name: Seq<char>, ext: Seq<char>) -> Seq<char> {
    dir + "/"@ + name + "."@ + ext
}

/// A path inside the singles folder with a number.
pub open spec fn numbered_path(dir: Seq<char>, name: Seq<char>, ext: Seq<char>, n: int) -> Seq<char> {
    dir + "/"@ + name + "-"@ + text::decimal(n as nat) + "."@ + ext
}

/// Whether `n` is the first number from two on whose path is free.
pub open spec fn first_free(
    dir: Seq<char>,
    name: Seq<char>,
    ext: Seq<char>,
    occupied: Seq<Seq<char>>,
    n: int,
) -> bool {
    &&& n >= 2
    &&& !occupied.contains(numbered_path(dir, name, ext, n))
    &&& forall|m: int| 2 <= m < n ==> occupied.contains(#[trigger] numbered_path(dir, name, ext, m))
}

/// The name that says which album a single came from.
pub open spec fn from_album(cfg: Config, name: Seq<char>, album: Seq<char>) -> Seq<char> {
    template::sanitized(
        name + " (from "@ + or_else(text::trimmed(album), "another album"@) + ")"@,
        options(cfg),
    )
}

/// Where a confirmed duplicate goes: the artist's singles folder under its own name, or with its
/// album named, or with a number, whichever is free first.
pub open spec fn single_target(
    cfg: Config,
    occupied: Seq<Seq<char>>,
    album_artist: Seq<char>,
    album: Seq<char>,
    loser: Seq<char>,
) -> Seq<char> {
    let dir = singles_dir(cfg, album_artist);
    let ext = extension(loser);
    let name = template::sanitized(stem(last_part(loser)), options(cfg));
    let plain = single_path(dir, name, ext);
    if !occupied.contains(plain) {
        plain
    } else {
        let long = from_album(cfg, name, album);
        let named = single_path(dir, long, ext);
        if !occupied.contains(named) {
            named
        } else {
            numbered_path(
                dir,
                long,
                ext,
                choose|n: int| first_free(dir, long, ext, occupied, n),
            )
        }
    }
}

proof fn numbered_paths_differ(dir: Seq<char>, name: Seq<char>, ext: Seq<char>, a: int, b: int)
    requires
        2 <= a,
        2 <= b,
        numbered_path(dir, name, ext, a) == numbered_path(dir, name, ext, b),
    ensures
        a == b,
{
    let front = dir + "/"@ + name + "-"@;
    let da = text::decimal(a as nat);
    let db = text::decimal(b as nat);
    let pa = numbered_path(dir, name, ext, a);
    let pb = numbered_path(dir, name, ext, b);
    assert(pa.len() == front.len() + da.len() + "."@.len() + ext.len());
    assert(pb.len() == front.len() + db.len() + "."@.len() + ext.len());
    assert(da.len() == db.len());
    assert(pa.subrange(front.len() as int, (front.len() + da.len()) as int) == da);
    assert(pb.subrange(front.len() as int, (front.len() + db.len()) as int) == db);
    text::decimal_reads_back(a as nat);
    text::decimal_reads_back(b as nat);
}

/// Finds a free numbered path. There are more numbers than occupied paths, so one is free.
fn free_numbered(dir: &str, name: &str, ext: &str, occupied: &Vec<String>) -> (r: String)
    requires
        occupied@.len() <= i32::MAX,
    ensures
        ({
            let occ = text::views(occupied@);
            let n = choose|n: int| first_free(dir@, name@, ext@, occ, n);
            first_free(dir@, name@, ext@, occ, n) && r@ == numbered_path(dir@, name@, ext@, n)
        }),
{
    let ghost occ = text::views(occupied@);
    let ghost mut hits: Seq<int> = Seq::empty();
    let mut n: u64 = 2;
    loop
        invariant
            occ == text::views(occupied@),
            occupied@.len() <= i32::MAX,
            n == hits.len() + 2,
            hits.len() <= occ.len(),
            forall|k: int| 0 <= k < hits.len() ==> 0 <= #[trigger] hits[k] < occ.len(),
            forall|k: int|
                0 <= k < hits.len() ==> occ[#[trigger] hits[k]] == numbered_path(
                    dir@,
                    name@,
                    ext@,
                    k + 2,
                ),
            hits.no_duplicates(),
            forall|m: int|
                2 <= m < n ==> occ.contains(#[trigger] numbered_path(dir@, name@, ext@, m)),
        decreases occ.len() - hits.len(),
    {
        let mut path = text::copy(dir);
        path.append("/");
        path.append(name);
        path.append("-");
        let digits = text::format_nat(n);
        path.append(digits.as_str());
        path.append(".");
        path.append(ext);
        match position_of(occupied, path.as_str()) {
            None => {
                proof {
                    assert(first_free(dir@, name@, ext@, occ, n as int));
                    let m = choose|m: int| first_free(dir@, name@, ext@, occ, m);
                    if m < n {
                        assert(occ.contains(numbered_path(dir@, name@, ext@, m)));
                    }
                    if m > n {
                        assert(occ.contains(numbered_path(dir@, name@, ext@, n as int)));
                    }
                }
                return path;
            },
            Some(at) => {
                proof {
                    assert(occ[at as int] == path@);
                    assert(!hits.contains(at as int)) by {
                        if hits.contains(at as int) {
                            let k = choose|k: int| 0 <= k < hits.len() && hits[k] == at;
                            assert(occ[hits[k]] == numbered_path(dir@, name@, ext@, k + 2));
                            numbered_paths_differ(dir@, name@, ext@, k + 2, n as int);
                        }
                    }
                    let more = hits.push(at as int);
                    assert(more.no_duplicates());
                    assert forall|k: int| 0 <= k < more.len() implies occ[#[trigger] more[k]]
                        == numbered_path(dir@, name@, ext@, k + 2) by {
                        if k < hits.len() {
                            assert(more[k] == hits[k]);
                        }
                    }
                    fits(more, occ.len());
                    hits = more;
                }
                n = n + 1;
            },
        }
    }
}

/// Different positions below `n` are at most `n` many.
proof fn fits(v: Seq<int>, n: nat)
    requires
        v.no_duplicates(),
        forall|k: int| 0 <= k < v.len() ==> 0 <= #[trigger] v[k] < n,
    ensures
        v.len() <= n,
{
    let s = v.to_set();
    let all = vstd::set_lib::set_int_range(0, n as int);
    vstd::set_lib::lemma_int_range(0, n as int);
    v.unique_seq_to_set();
    assert(s.subset_of(all)) by {
        assert forall|x: int| s.contains(x) implies all.contains(x) by {
            let k = choose|k: int| 0 <= k < v.len() && v[k] == x;
            assert(0 <= v[k] < n);
        }
    }
    vstd::set_lib::lemma_len_subset(s, all);
}

/// The folder for an artist's singles.
pub fn singles_folder_of(cfg: &Config, album_artist: &str) -> (r: String)
    ensures
        r@ == singles_dir(*cfg, album_artist@),
{
    let artist = text::trim(album_artist);
    let mut dir = template::sanitize_with(artist.as_str(), &sanitize_opts(cfg));
    if text::length(dir.as_str()) == 0 {
        dir = cfg.various_folder.clone();
    }
    dir.append("/");
    dir.append(cfg.singles_folder.as_str());
    dir
}

/// Where a confirmed duplicate is moved, given the paths that are occupied.
pub fn singles_target(
    cfg: &Config,
    occupied: &Vec<String>,
    album_artist: &str,
    album: &str,
    loser: &str,
) -> (r: String)
    requires
        occupied@.len() <= i32::MAX,
    ensures
        r@ == single_target(*cfg, text::views(occupied@), album_artist@, album@, loser@),
        !text::views(occupied@).contains(r@),
{
    let opts = sanitize_opts(cfg);
    let dir = singles_folder_of(cfg, album_artist);
    let ext = extension_of(loser);
    let file = last_part_of(loser);
    let bare = stem_of(file.as_str());
    let name = template::sanitize_with(bare.as_str(), &opts);
    let mut plain = dir.clone();
    plain.append("/");
    plain.append(name.as_str());
    plain.append(".");
    plain.append(ext.as_str());
    if !among_texts(occupied, plain.as_str()) {
        return plain;
    }
    let album_name = text::trim(album);
    let mut long = name.clone();
    long.append(" (from ");
    if text::length(album_name.as_str()) > 0 {
        long.append(album_name.as_str());
    } else {
        long.append("another album");
    }
    long.append(")");
    let long_name = template::sanitize_with(long.as_str(), &opts);
    let mut named = dir.clone();
    named.append("/");
    named.append(long_name.as_str());
    named.append(".");
    named.append(ext.as_str());
    if !among_texts(occupied, named.as_str()) {
        return named;
    }
    free_numbered(dir.as_str(), long_name.as_str(), ext.as_str(), occupied)
}

pub open spec fn targets_of(v: Seq<DuplicateView>) -> Seq<Seq<char>> {
    Seq::new(v.len(), |i: int| v[i].target)
}

/// The duplicates of the first `n` pairs. A path that an earlier duplicate takes is occupied for
/// the later ones.
pub open spec fn duplicates_of(
    files: Seq<(Seq<char>, TagsView)>,
    pairs: Seq<(int, int)>,
    cfg: Config,
    existing: Seq<Seq<char>>,
    n: int,
) -> Seq<DuplicateView>
    decreases n,
{
    if n <= 0 {
        Seq::empty()
    } else {
        let before = duplicates_of(files, pairs, cfg, existing, n - 1);
        let w = files[pairs[n - 1].0];
        let l = files[pairs[n - 1].1];
        before.push(
            DuplicateView {
                winner: w.0,
                loser: l.0,
                target: single_target(
                    cfg,
                    existing + targets_of(before),
                    l.1.album_artist,
                    l.1.album,
                    l.0,
                ),
            },
        )
    }
}

// ---------------------------------------------------------------------------
// The plan for a group

/// A plan for the files of one album, wherever they lie.
#[derive(Debug, Clone)]
pub struct GroupPlan {
    pub bucket: Bucket,
    pub target_dir: String,
    pub moves: Vec<FileMove>,
    /// Confirmed duplicates within the album.
    pub duplicates: Vec<Duplicate>,
    /// Filler tracks of the album. They are reported, never routed elsewhere.
    pub fillers: Vec<String>,
    /// Files whose identity could not be verified.
    pub unverified: Vec<String>,
    pub kept: usize,
    pub skipped: Vec<(String, String)>,
}

/// The mathematical value of a group plan.
#[verifier::ext_equal]
pub struct GroupPlanView {
    pub bucket: Bucket,
    pub target_dir: Seq<char>,
    pub moves: Seq<MoveView>,
    pub duplicates: Seq<DuplicateView>,
    pub fillers: Seq<Seq<char>>,
    pub unverified: Seq<Seq<char>>,
    pub kept: nat,
    pub skipped: Seq<(Seq<char>, Seq<char>)>,
}

impl View for GroupPlan {
    type V = GroupPlanView;

    open spec fn view(&self) -> GroupPlanView {
        GroupPlanView {
            bucket: self.bucket,
            target_dir: self.target_dir@,
            moves: move_views(self.moves@),
            duplicates: duplicate_views(self.duplicates@),
            fillers: text::views(self.fillers@),
            unverified: text::views(self.unverified@),
            kept: self.kept as nat,
            skipped: pair_views(self.skipped@),
        }
    }
}

/// The information on a group: its tags, the release type where one is known, the folder hint
/// as the weakest name.
pub open spec fn group_info(
    files: Seq<(Seq<char>, TagsView)>,
    folder_hint: Seq<char>,
    release_type: Seq<char>,
) -> InfoView {
    let tags = Seq::new(files.len(), |i: int| files[i].1);
    with_fallbacks(
        InfoView {
            release_type: if text::trimmed(release_type).len() > 0 {
                release_type
            } else {
                Seq::empty()
            },
            ..info_of(tags, files.len())
        },
        folder_hint,
    )
}

/// The template fields of a file in a group.
pub open spec fn fields_of_file(f: (Seq<char>, TagsView), info: InfoView) -> FieldsView {
    FieldsView {
        track: f.1.track,
        disc: f.1.disc,
        title: or_else(f.1.title, name_parts(last_part(f.0)).1),
        artist: or_else(f.1.artist, f.1.album_artist),
        album_artist: info.album_artist,
        album: info.album,
        year: info.year,
        genre: info.genre,
        recording: f.1.recording.label(),
        mbid: f.1.mbid_recording,
    }
}

pub open spec fn group_sources(files: Seq<(Seq<char>, TagsView)>) -> Seq<Seq<char>> {
    Seq::new(files.len(), |i: int| files[i].0)
}

pub open spec fn group_targets(
    files: Seq<(Seq<char>, TagsView)>,
    info: InfoView,
    cfg: Config,
    dir: Seq<char>,
) -> Seq<Seq<char>> {
    Seq::new(
        files.len(),
        |i: int|
            dir + "/"@ + file_target(
                cfg,
                fields_of_file(files[i], info),
                files[i].1.recording,
                files[i].0,
            ),
    )
}

/// The stem that the sidecars of a file start with: that of its name.
pub open spec fn sidecar_stem(path: Seq<char>) -> Seq<char> {
    stem(last_part(path))
}

pub open spec fn group_companions(files: Seq<(Seq<char>, TagsView)>, cfg: Config, disk: Disk) -> Seq<
    Seq<Seq<char>>,
> {
    Seq::new(
        files.len(),
        |i: int|
            if cfg.rename_sidecars {
                companions(disk.names(parent(files[i].0)), sidecar_stem(files[i].0))
            } else {
                Seq::empty()
            },
    )
}

/// Whether a file is a filler track, by its title or else by its name.
pub open spec fn filler_file(f: (Seq<char>, TagsView), keywords: Seq<Seq<char>>) -> bool {
    filler(
        if text::trimmed(f.1.title).len() == 0 {
            name_parts(last_part(f.0)).1
        } else {
            f.1.title
        },
        keywords,
    )
}

/// The filler tracks among the first `n` files that are no losers.
pub open spec fn fillers_of(
    files: Seq<(Seq<char>, TagsView)>,
    losers: Seq<bool>,
    keywords: Seq<Seq<char>>,
    n: int,
) -> Seq<Seq<char>>
    decreases n,
{
    if n <= 0 {
        Seq::empty()
    } else {
        let before = fillers_of(files, losers, keywords, n - 1);
        if !losers[n - 1] && filler_file(files[n - 1], keywords) {
            before.push(files[n - 1].0)
        } else {
            before
        }
    }
}

pub open spec fn keywords_of(cfg: Config) -> Seq<Seq<char>> {
    crate::config::filled_texts(text::split_by(cfg.filler_keywords@, text::among(","@)))
}

/// The plan for a group of files.
pub open spec fn group_plan(
    files: Seq<(Seq<char>, TagsView)>,
    cfg: Config,
    folder_hint: Seq<char>,
    release_type: Seq<char>,
    disk: Disk,
) -> GroupPlanView {
    let info = group_info(files, folder_hint, release_type);
    let bucket = bucket_of(info, cfg);
    let title = if files.len() > 0 {
        files[0].1.title
    } else {
        Seq::empty()
    };
    let dir = target_dir(bucket, info, cfg, title);
    let n = files.len() as int;
    let keys = song_keys(files);
    let sizes = sizes_of(files, disk);
    let losers = losers_of(keys, sizes);
    let pairs = pairs_of(keys, sizes, n);
    let from = group_sources(files);
    let to = group_targets(files, info, cfg, dir);
    let fates = fates_of(from, to, losers, disk.paths(), true);
    GroupPlanView {
        bucket,
        target_dir: dir,
        moves: moves_of(from, to, fates, group_companions(files, cfg, disk), n),
        duplicates: duplicates_of(files, pairs, cfg, disk.paths(), pairs.len() as int),
        fillers: fillers_of(files, losers, keywords_of(cfg), n),
        unverified: Seq::empty(),
        kept: count_of(fates, Fate::Kept, n),
        skipped: skips_of(from, fates, n),
    }
}

fn song_key_text(t: &TrackTags) -> (r: Option<String>)
    ensures
        text::view_opt(r) == song_key(t@),
{
    let title = text::trim(t.title.as_str());
    match t.track {
        Some(n) => if text::length(title.as_str()) > 0 {
            let artist = norm(t.album_artist.as_str());
            let album = norm(t.album.as_str());
            let song = norm(t.title.as_str());
            let number = text::format_nat(n as u64);
            let mut out = text::copy("t:");
            out.append(artist.as_str());
            out.append("|");
            out.append(album.as_str());
            out.append("|");
            out.append(song.as_str());
            out.append("|");
            out.append(number.as_str());
            Some(out)
        } else {
            None
        },
        None => None,
    }
}

pub open spec fn key_views(v: Seq<Option<String>>) -> Seq<Option<Seq<char>>> {
    Seq::new(v.len(), |i: int| text::view_opt(v[i]))
}

fn are_same_song(keys: &Vec<Option<String>>, i: usize, j: usize) -> (r: bool)
    requires
        i < keys@.len(),
        j < keys@.len(),
    ensures
        r == same_song(key_views(keys@), i as int, j as int),
{
    match &keys[i] {
        Some(a) => match &keys[j] {
            Some(b) => text::same(a.as_str(), b.as_str()),
            None => false,
        },
        None => false,
    }
}

fn are_twins(keys: &Vec<Option<String>>, sizes: &Vec<u64>, i: usize, j: usize) -> (r: bool)
    requires
        i < keys@.len(),
        j < keys@.len(),
        keys@.len() == sizes@.len(),
    ensures
        r == twins(key_views(keys@), sizes@, i as int, j as int),
{
    are_same_song(keys, i, j) && sizes[i] == sizes[j]
}

fn is_loser(keys: &Vec<Option<String>>, sizes: &Vec<u64>, i: usize) -> (r: bool)
    requires
        i < keys@.len(),
        keys@.len() == sizes@.len(),
    ensures
        r == loses(key_views(keys@), sizes@, i as int),
{
    let mut j: usize = 0;
    while j < i
        invariant
            j <= i < keys@.len(),
            keys@.len() == sizes@.len(),
            forall|k: int| 0 <= k < j ==> !#[trigger] twins(key_views(keys@), sizes@, k, i as int),
        decreases i - j,
    {
        if are_twins(keys, sizes, j, i) {
            assert(twins(key_views(keys@), sizes@, j as int, i as int));
            return true;
        }
        j = j + 1;
    }
    false
}

pub open spec fn int_pairs(v: Seq<(usize, usize)>) -> Seq<(int, int)> {
    Seq::new(v.len(), |i: int| (v[i].0 as int, v[i].1 as int))
}

/// The pairs of winner and loser.
fn find_pairs(keys: &Vec<Option<String>>, sizes: &Vec<u64>) -> (r: Vec<(usize, usize)>)
    requires
        keys@.len() == sizes@.len(),
    ensures
        int_pairs(r@) == pairs_of(key_views(keys@), sizes@, keys@.len() as int),
        forall|i: int|
            0 <= i < r@.len() ==> (#[trigger] r@[i]).0 < keys@.len() && r@[i].1 < keys@.len(),
{
    let ghost views = key_views(keys@);
    let mut out: Vec<(usize, usize)> = Vec::new();
    let mut w: usize = 0;
    assert(int_pairs(out@) == pairs_of(views, sizes@, 0));
    while w < keys.len()
        invariant
            w <= keys@.len(),
            keys@.len() == sizes@.len(),
            views == key_views(keys@),
            int_pairs(out@) == pairs_of(views, sizes@, w as int),
            forall|i: int|
                0 <= i < out@.len() ==> (#[trigger] out@[i]).0 < keys@.len() && out@[i].1
                    < keys@.len(),
        decreases keys@.len() - w,
    {
        if !is_loser(keys, sizes, w) {
            let ghost before = int_pairs(out@);
            let mut i: usize = 0;
            proof {
                let mine = losers_against(views, sizes@, w as int, 0);
                assert(before + Seq::new(mine.len(), |k: int| (w as int, mine[k])) == before);
            }
            while i < keys.len()
                invariant
                    i <= keys@.len(),
                    w < keys@.len(),
                    keys@.len() == sizes@.len(),
                    views == key_views(keys@),
                    ({
                        let mine = losers_against(views, sizes@, w as int, i as int);
                        int_pairs(out@) == before + Seq::new(
                            mine.len(),
                            |k: int| (w as int, mine[k]),
                        )
                    }),
                    forall|k: int|
                        0 <= k < out@.len() ==> (#[trigger] out@[k]).0 < keys@.len() && out@[k].1
                            < keys@.len(),
                decreases keys@.len() - i,
            {
                let ghost mine = losers_against(views, sizes@, w as int, i as int);
                let ghost old_out = out@;
                if w < i && are_twins(keys, sizes, w, i) {
                    out.push((w, i));
                    proof {
                        let more = losers_against(views, sizes@, w as int, i + 1);
                        assert(more == mine.push(i as int));
                        assert(int_pairs(out@) == int_pairs(old_out).push((w as int, i as int)));
                        assert(before + Seq::new(more.len(), |k: int| (w as int, more[k])) == (
                        before + Seq::new(mine.len(), |k: int| (w as int, mine[k]))).push(
                            (w as int, i as int),
                        ));
                    }
                }
                i = i + 1;
            }
        }
        w = w + 1;
    }
    out
}

fn file_fields(path: &str, t: &TrackTags, info: &AlbumInfo) -> (r: TemplateFields)
    ensures
        r@ == fields_of_file((path@, t@), info@),
{
    let title: String = if text::length(t.title.as_str()) == 0 {
        parse_file_name(last_part_of(path).as_str()).1
    } else {
        t.title.clone()
    };
    let artist: String = if text::length(t.artist.as_str()) == 0 {
        t.album_artist.clone()
    } else {
        t.artist.clone()
    };
    TemplateFields {
        track: t.track,
        disc: t.disc,
        title,
        artist,
        album_artist: info.album_artist.clone(),
        album: info.album.clone(),
        year: info.year,
        genre: info.genre.clone(),
        recording: text::copy(t.recording.as_str()),
        mbid: t.mbid_recording.clone(),
    }
}

fn is_filler_file(path: &str, t: &TrackTags, keywords: &Vec<String>) -> (r: bool)
    ensures
        r == filler_file((path@, t@), text::views(keywords@)),
{
    let title = text::trim(t.title.as_str());
    if text::length(title.as_str()) == 0 {
        let name = parse_file_name(last_part_of(path).as_str()).1;
        is_filler(name.as_str(), keywords.as_slice())
    } else {
        is_filler(t.title.as_str(), keywords.as_slice())
    }
}

pub(crate) fn file_companions(path: &str, cfg: &Config, disk: &Disk) -> (r: Vec<String>)
    ensures
        text::views(r@) == if cfg.rename_sidecars {
            companions(disk.names(parent(path@)), sidecar_stem(path@))
        } else {
            Seq::empty()
        },
{
    let empty: Vec<String> = Vec::new();
    assert(text::views(empty@) == Seq::<Seq<char>>::empty());
    if !cfg.rename_sidecars {
        return empty;
    }
    let dir = parent_of(path);
    let file = last_part_of(path);
    let s: String = match text::find_last(file.as_str(), ".") {
        Some(i) => {
            let r = text::slice(file.as_str(), 0, i);
            assert(r@ == file@.take(i as int));
            r
        },
        None => text::copy(file.as_str()),
    };
    let names = disk.names_in(dir.as_str());
    proof {
        if names is None {
            assert(disk.names(dir@) == Seq::<Seq<char>>::empty());
        }
    }
    companions_in(names, s.as_str())
}

fn build_duplicates(
    files: &Vec<(String, TrackTags)>,
    pairs: &Vec<(usize, usize)>,
    cfg: &Config,
    disk: &Disk,
) -> (r: Vec<Duplicate>)
    requires
        disk.existing@.len() + pairs@.len() <= i32::MAX,
        forall|i: int|
            0 <= i < pairs@.len() ==> (#[trigger] pairs@[i]).0 < files@.len() && pairs@[i].1
                < files@.len(),
    ensures
        duplicate_views(r@) == duplicates_of(
            file_views(files@),
            int_pairs(pairs@),
            *cfg,
            disk.paths(),
            pairs@.len() as int,
        ),
{
    let ghost views = file_views(files@);
    let ghost ip = int_pairs(pairs@);
    let mut occupied: Vec<String> = Vec::new();
    let mut e: usize = 0;
    assert(text::views(occupied@) == disk.paths().take(0));
    while e < disk.existing.len()
        invariant
            e <= disk.existing@.len(),
            text::views(occupied@) == disk.paths().take(e as int),
            occupied@.len() == e,
        decreases disk.existing@.len() - e,
    {
        let p = disk.existing[e].clone();
        proof {
            text::views_push(occupied@, p);
            assert(disk.paths().take(e + 1) == disk.paths().take(e as int).push(p@));
        }
        occupied.push(p);
        e = e + 1;
    }
    assert(disk.paths().take(e as int) == disk.paths());
    let mut out: Vec<Duplicate> = Vec::new();
    let mut i: usize = 0;
    proof {
        assert(duplicate_views(out@) == duplicates_of(views, ip, *cfg, disk.paths(), 0));
        assert(disk.paths() + targets_of(duplicate_views(out@)) == disk.paths());
    }
    while i < pairs.len()
        invariant
            i <= pairs@.len(),
            views == file_views(files@),
            ip == int_pairs(pairs@),
            disk.existing@.len() + pairs@.len() <= i32::MAX,
            forall|k: int|
                0 <= k < pairs@.len() ==> (#[trigger] pairs@[k]).0 < files@.len() && pairs@[k].1
                    < files@.len(),
            out@.len() == i,
            occupied@.len() == disk.existing@.len() + i,
            duplicate_views(out@) == duplicates_of(views, ip, *cfg, disk.paths(), i as int),
            text::views(occupied@) == disk.paths() + targets_of(duplicate_views(out@)),
        decreases pairs@.len() - i,
    {
        let pair = pairs[i];
        assert(pairs@[i as int].0 < files@.len() && pairs@[i as int].1 < files@.len());
        let l = &files[pair.1];
        let target = singles_target(
            cfg,
            &occupied,
            l.1.album_artist.as_str(),
            l.1.album.as_str(),
            l.0.as_str(),
        );
        let ghost before = duplicate_views(out@);
        let ghost held = text::views(occupied@);
        let kept = target.clone();
        out.push(Duplicate { winner: files[pair.0].0.clone(), loser: l.0.clone(), target });
        proof {
            let one = out@.last()@;
            assert(duplicate_views(out@) == before.push(one));
            assert(targets_of(before.push(one)) == targets_of(before).push(kept@));
            text::views_push(occupied@, kept);
            assert(disk.paths() + targets_of(before).push(kept@) == held.push(kept@));
        }
        occupied.push(kept);
        i = i + 1;
    }
    out
}

/// Builds the change plan for a group of files that make one album. `folder_hint` names the
/// album where the tags do not.
pub fn build_group_plan(
    disk: &Disk,
    cfg: &Config,
    files: &Vec<(String, TrackTags)>,
    folder_hint: &str,
    mb_release_type: &str,
) -> (r: GroupPlan)
    requires
        disk.existing@.len() + files@.len() <= i32::MAX,
    ensures
        r@ == group_plan(file_views(files@), *cfg, folder_hint@, mb_release_type@, *disk),
{
    let ghost views = file_views(files@);
    let mut info = album_info_from_tags(files);
    let kind = text::trim(mb_release_type);
    if text::length(kind.as_str()) > 0 {
        info.release_type = text::copy(mb_release_type);
    }
    info.apply_fallbacks(folder_hint);
    proof {
        assert(file_tags(files@) == Seq::new(views.len(), |i: int| views[i].1));
        assert(info@ =~= group_info(views, folder_hint@, mb_release_type@));
    }
    let bucket = classify(&info, cfg);
    let title: String = if files.len() > 0 {
        files[0].1.title.clone()
    } else {
        String::new()
    };
    let dir = target_album_dir(bucket, &info, cfg, title.as_str());
    let n: usize = files.len();
    let keywords = filler_keyword_list(cfg);

    let mut keys: Vec<Option<String>> = Vec::new();
    let mut sizes: Vec<u64> = Vec::new();
    let mut from: Vec<String> = Vec::new();
    let mut to: Vec<String> = Vec::new();
    let mut sidecars: Vec<Vec<String>> = Vec::new();
    let ghost src = group_sources(views);
    let ghost dst = group_targets(views, info@, *cfg, dir@);
    let ghost with = group_companions(views, *cfg, *disk);
    let mut i: usize = 0;
    while i < n
        invariant
            i <= n == files@.len(),
            views == file_views(files@),
            src == group_sources(views),
            dst == group_targets(views, info@, *cfg, dir@),
            with == group_companions(views, *cfg, *disk),
            keys@.len() == i,
            sizes@.len() == i,
            from@.len() == i,
            to@.len() == i,
            sidecars@.len() == i,
            forall|k: int| 0 <= k < i ==> text::view_opt(#[trigger] keys@[k]) == song_keys(views)[k],
            forall|k: int| 0 <= k < i ==> #[trigger] sizes@[k] == sizes_of(views, *disk)[k],
            forall|k: int| 0 <= k < i ==> (#[trigger] from@[k])@ == src[k],
            forall|k: int| 0 <= k < i ==> (#[trigger] to@[k])@ == dst[k],
            forall|k: int| 0 <= k < i ==> text::views((#[trigger] sidecars@[k])@) == with[k],
        decreases n - i,
    {
        let path = &files[i].0;
        let t = &files[i].1;
        assert(views[i as int] == (path@, t@));
        keys.push(song_key_text(t));
        sizes.push(disk.size_of(path.as_str()));
        from.push(path.clone());
        let fields = file_fields(path.as_str(), t, &info);
        let name = file_target_text(cfg, &fields, t.recording, path.as_str());
        let mut target = dir.clone();
        target.append("/");
        target.append(name.as_str());
        to.push(target);
        sidecars.push(file_companions(path.as_str(), cfg, disk));
        i = i + 1;
    }
    proof {
        assert(key_views(keys@) == song_keys(views));
        assert(sizes@ == sizes_of(views, *disk));
    }
    let pairs = find_pairs(&keys, &sizes);
    proof {
        pairs_are_losers(song_keys(views), sizes_of(views, *disk));
        assert(int_pairs(pairs@).len() == pairs@.len());
    }
    let duplicates = build_duplicates(files, &pairs, cfg, disk);

    let mut losers: Vec<bool> = Vec::new();
    let mut fillers: Vec<String> = Vec::new();
    let ghost all_losers = losers_of(song_keys(views), sizes_of(views, *disk));
    let mut j: usize = 0;
    assert(text::views(fillers@) == Seq::<Seq<char>>::empty());
    while j < n
        invariant
            j <= n == files@.len(),
            views == file_views(files@),
            keys@.len() == n,
            sizes@.len() == n,
            key_views(keys@) == song_keys(views),
            sizes@ == sizes_of(views, *disk),
            all_losers == losers_of(song_keys(views), sizes_of(views, *disk)),
            text::views(keywords@) == keywords_of(*cfg),
            losers@.len() == j,
            forall|k: int| 0 <= k < j ==> #[trigger] losers@[k] == all_losers[k],
            text::views(fillers@) == fillers_of(views, all_losers, keywords_of(*cfg), j as int),
        decreases n - j,
    {
        let path = &files[j].0;
        assert(views[j as int] == (path@, files@[j as int].1@));
        let lost: bool = is_loser(&keys, &sizes, j);
        losers.push(lost);
        if !lost && is_filler_file(path.as_str(), &files[j].1, &keywords) {
            let p = path.clone();
            proof {
                text::views_push(fillers@, p);
            }
            fillers.push(p);
        }
        j = j + 1;
    }
    let fates = decide_fates(&from, &to, &losers, &disk.existing, true);
    proof {
        assert(text::views(from@) == src);
        assert(text::views(to@) == dst);
        assert(losers@ == all_losers);
        assert(fates@ == fates_of(src, dst, all_losers, disk.paths(), true));
        assert(Seq::new(sidecars@.len(), |k: int| text::views(sidecars@[k]@)) == with);
    }
    let out = carry_out(&from, &to, &fates, sidecars);
    let unverified: Vec<String> = Vec::new();
    assert(text::views(unverified@) == Seq::<Seq<char>>::empty());
    GroupPlan {
        bucket,
        target_dir: dir,
        moves: out.moves,
        duplicates,
        fillers,
        unverified,
        kept: out.kept,
        skipped: out.skipped,
    }
}

// ---------------------------------------------------------------------------
// Laws of plans

proof fn losers_against_holds(keys: Seq<Option<Seq<char>>>, sizes: Seq<u64>, w: int, n: int)
    ensures
        ({
            let v = losers_against(keys, sizes, w, n);
            &&& v.no_duplicates()
            &&& forall|x: int| #[trigger]
                v.contains(x) <==> (0 <= x && w < x < n && twins(keys, sizes, w, x))
        }),
    decreases n,
{
    let v = losers_against(keys, sizes, w, n);
    if n > 0 {
        losers_against_holds(keys, sizes, w, n - 1);
        let before = losers_against(keys, sizes, w, n - 1);
        assert forall|x: int| #[trigger] v.contains(x) <==> (0 <= x && w < x < n && twins(
            keys,
            sizes,
            w,
            x,
        )) by {
            if v.contains(x) {
                let k = choose|k: int| 0 <= k < v.len() && v[k] == x;
                if k < before.len() {
                    assert(before[k] == x);
                    assert(before.contains(x));
                }
            }
            if 0 <= x && w < x < n && twins(keys, sizes, w, x) {
                if x < n - 1 {
                    assert(before.contains(x));
                    let k = choose|k: int| 0 <= k < before.len() && before[k] == x;
                    assert(v[k] == x);
                } else {
                    assert(v[v.len() - 1] == x);
                }
            }
        }
        if v.len() > before.len() {
            assert(!before.contains(n - 1));
        }
    } else {
        assert(v == Seq::<int>::empty());
    }
}

pub open spec fn seconds(v: Seq<(int, int)>) -> Seq<int> {
    Seq::new(v.len(), |i: int| v[i].1)
}

pub proof fn pairs_hold(keys: Seq<Option<Seq<char>>>, sizes: Seq<u64>, m: int)
    requires
        m <= keys.len(),
    ensures
        ({
            let v = pairs_of(keys, sizes, m);
            &&& seconds(v).no_duplicates()
            &&& forall|k: int|
                0 <= k < v.len() ==> {
                    let w = (#[trigger] v[k]).0;
                    let l = v[k].1;
                    0 <= w < m && w < l < keys.len() && !loses(keys, sizes, w) && twins(keys, sizes, w, l)
                }
            &&& forall|w: int, l: int|
                0 <= w < m && w < l < keys.len() && !loses(keys, sizes, w) && #[trigger] twins(
                    keys,
                    sizes,
                    w,
                    l,
                ) ==> seconds(v).contains(l)
        }),
    decreases m,
{
    let v = pairs_of(keys, sizes, m);
    if m > 0 {
        pairs_hold(keys, sizes, m - 1);
        let before = pairs_of(keys, sizes, m - 1);
        let mine = losers_against(keys, sizes, m - 1, keys.len() as int);
        losers_against_holds(keys, sizes, m - 1, keys.len() as int);
        if !loses(keys, sizes, m - 1) {
            assert(v == before + Seq::new(mine.len(), |i: int| (m - 1, mine[i])));
            assert forall|k: int| 0 <= k < v.len() implies {
                let w = (#[trigger] v[k]).0;
                let l = v[k].1;
                0 <= w < m && w < l < keys.len() && !loses(keys, sizes, w) && twins(keys, sizes, w, l)
            } by {
                if k < before.len() {
                    assert(v[k] == before[k]);
                } else {
                    assert(v[k] == (m - 1, mine[k - before.len()]));
                    assert(mine.contains(mine[k - before.len()]));
                }
            }
            assert(seconds(v).no_duplicates()) by {
                assert forall|a: int, b: int| 0 <= a < b < v.len() implies seconds(v)[a] != seconds(
                    v,
                )[b] by {
                    if b < before.len() {
                        assert(seconds(before)[a] != seconds(before)[b]);
                    } else if a >= before.len() {
                        assert(mine[a - before.len()] != mine[b - before.len()]);
                    } else {
                        let w = v[a].0;
                        let l = v[a].1;
                        assert(v[a] == before[a]);
                        assert(v[b] == (m - 1, mine[b - before.len()]));
                        if l == v[b].1 {
                            assert(mine.contains(mine[b - before.len()]));
                            assert(twins(keys, sizes, m - 1, l));
                            assert(twins(keys, sizes, w, m - 1));
                            assert(loses(keys, sizes, m - 1));
                        }
                    }
                }
            }
            assert forall|w: int, l: int|
                0 <= w < m && w < l < keys.len() && !loses(keys, sizes, w) && #[trigger] twins(
                    keys,
                    sizes,
                    w,
                    l,
                ) implies seconds(v).contains(l) by {
                if w < m - 1 {
                    assert(seconds(before).contains(l));
                    let k = choose|k: int| 0 <= k < seconds(before).len() && seconds(before)[k] == l;
                    assert(seconds(v)[k] == l);
                } else {
                    assert(mine.contains(l));
                    let k = choose|k: int| 0 <= k < mine.len() && mine[k] == l;
                    assert(seconds(v)[before.len() + k] == l);
                }
            }
        }
    } else {
        assert(seconds(v) == Seq::<int>::empty());
    }
}

/// The first of the files that are duplicates of each other.
proof fn first_twin(keys: Seq<Option<Seq<char>>>, sizes: Seq<u64>, i: int) -> (w: int)
    requires
        0 <= i < keys.len(),
        keys[i] is Some,
    ensures
        0 <= w <= i,
        twins(keys, sizes, w, i),
        !loses(keys, sizes, w),
    decreases i,
{
    if loses(keys, sizes, i) {
        let j = choose|j: int| 0 <= j < i && #[trigger] twins(keys, sizes, j, i);
        let w = first_twin(keys, sizes, j);
        assert(twins(keys, sizes, w, i));
        w
    } else {
        i
    }
}

/// How many of the first `n` files lose.
spec fn losing(keys: Seq<Option<Seq<char>>>, sizes: Seq<u64>, n: int) -> Set<int> {
    Set::new(|i: int| 0 <= i < n && loses(keys, sizes, i))
}

/// The losers are as many as the pairs.
#[verifier::rlimit(60)]
#[verifier::spinoff_prover]
proof fn pairs_are_losers(keys: Seq<Option<Seq<char>>>, sizes: Seq<u64>)
    ensures
        ({
            let v = pairs_of(keys, sizes, keys.len() as int);
            &&& v.len() <= keys.len()
            &&& seconds(v).no_duplicates()
            &&& forall|i: int|
                0 <= i < keys.len() ==> (loses(keys, sizes, i) <==> #[trigger] seconds(v).contains(i))
            &&& seconds(v).to_set() == losing(keys, sizes, keys.len() as int)
        }),
{
    let n = keys.len() as int;
    let v = pairs_of(keys, sizes, n);
    pairs_hold(keys, sizes, n);
    assert forall|i: int| 0 <= i < n implies (loses(keys, sizes, i) <==> #[trigger] seconds(v).contains(
        i,
    )) by {
        if loses(keys, sizes, i) {
            let j = choose|j: int| 0 <= j < i && #[trigger] twins(keys, sizes, j, i);
            let w = first_twin(keys, sizes, i);
            assert(seconds(v).contains(i));
        }
        if seconds(v).contains(i) {
            let k = choose|k: int| 0 <= k < seconds(v).len() && seconds(v)[k] == i;
            assert(v[k].1 == i);
        }
    }
    assert forall|k: int| 0 <= k < seconds(v).len() implies 0 <= #[trigger] seconds(v)[k] < n by {
        assert(v[k].1 < n);
    }
    fits(seconds(v), n as nat);
    assert(seconds(v).to_set() =~= losing(keys, sizes, n)) by {
        assert forall|x: int| seconds(v).to_set().contains(x) == losing(keys, sizes, n).contains(x) by {
            if seconds(v).contains(x) {
                let k = choose|k: int| 0 <= k < seconds(v).len() && seconds(v)[k] == x;
                assert(v[k].1 == x);
                assert(0 <= seconds(v)[k] < n);
            }
        }
    }
}

proof fn losing_count(
    keys: Seq<Option<Seq<char>>>,
    sizes: Seq<u64>,
    fates: Seq<Fate>,
    n: int,
)
    requires
        0 <= n <= fates.len(),
        fates.len() == keys.len(),
        forall|i: int|
            0 <= i < fates.len() ==> ((#[trigger] fates[i]) == Fate::Loser <==> loses(keys, sizes, i)),
    ensures
        losing(keys, sizes, n).finite(),
        losing(keys, sizes, n).len() == count_of(fates, Fate::Loser, n),
    decreases n,
{
    if n > 0 {
        losing_count(keys, sizes, fates, n - 1);
        let before = losing(keys, sizes, n - 1);
        assert(fates[n - 1] == Fate::Loser <==> loses(keys, sizes, n - 1));
        if loses(keys, sizes, n - 1) {
            assert(losing(keys, sizes, n) =~= before.insert(n - 1));
        } else {
            assert(losing(keys, sizes, n) =~= before);
        }
    } else {
        assert(losing(keys, sizes, n) =~= Set::<int>::empty());
    }
}

proof fn fates_add_up(
    from: Seq<Seq<char>>,
    to: Seq<Seq<char>>,
    fates: Seq<Fate>,
    sidecars: Seq<Seq<Seq<char>>>,
    n: int,
)
    requires
        0 <= n <= fates.len(),
    ensures
        moves_of(from, to, fates, sidecars, n).len() + skips_of(from, fates, n).len() + count_of(
            fates,
            Fate::Kept,
            n,
        ) + count_of(fates, Fate::Loser, n) == n,
    decreases n,
{
    if n > 0 {
        fates_add_up(from, to, fates, sidecars, n - 1);
    }
}

/// Which file each move is about.
proof fn move_indices(
    from: Seq<Seq<char>>,
    to: Seq<Seq<char>>,
    fates: Seq<Fate>,
    sidecars: Seq<Seq<Seq<char>>>,
    n: int,
) -> (idx: Seq<int>)
    requires
        0 <= n <= fates.len(),
    ensures
        idx.len() == moves_of(from, to, fates, sidecars, n).len(),
        forall|k: int|
            0 <= k < idx.len() ==> {
                let i = #[trigger] idx[k];
                &&& 0 <= i < n
                &&& fates[i] == Fate::Moved
                &&& moves_of(from, to, fates, sidecars, n)[k] == (MoveView {
                    from: from[i],
                    to: to[i],
                    sidecars: sidecars[i],
                })
            },
        forall|a: int, b: int| 0 <= a < b < idx.len() ==> #[trigger] idx[a] < #[trigger] idx[b],
    decreases n,
{
    if n <= 0 {
        Seq::empty()
    } else {
        let before = move_indices(from, to, fates, sidecars, n - 1);
        let all = moves_of(from, to, fates, sidecars, n);
        if fates[n - 1] == Fate::Moved {
            let idx = before.push(n - 1);
            assert forall|k: int| 0 <= k < idx.len() implies {
                let i = #[trigger] idx[k];
                &&& 0 <= i < n
                &&& fates[i] == Fate::Moved
                &&& all[k] == (MoveView { from: from[i], to: to[i], sidecars: sidecars[i] })
            } by {
                if k < before.len() {
                    assert(idx[k] == before[k]);
                }
            }
            assert forall|a: int, b: int| 0 <= a < b < idx.len() implies #[trigger] idx[a]
                < #[trigger] idx[b] by {
                assert(idx[a] == before[a]);
                if b < before.len() {
                    assert(idx[b] == before[b]);
                }
            }
            idx
        } else {
            before
        }
    }
}

/// Which file each skip is about.
proof fn skip_indices(from: Seq<Seq<char>>, fates: Seq<Fate>, n: int) -> (idx: Seq<int>)
    requires
        0 <= n <= fates.len(),
    ensures
        idx.len() == skips_of(from, fates, n).len(),
        forall|k: int|
            0 <= k < idx.len() ==> {
                let i = #[trigger] idx[k];
                &&& 0 <= i < n
                &&& fates[i] == Fate::NameTaken || fates[i] == Fate::TargetExists
                &&& skips_of(from, fates, n)[k].0 == from[i]
            },
        forall|a: int, b: int| 0 <= a < b < idx.len() ==> #[trigger] idx[a] < #[trigger] idx[b],
    decreases n,
{
    if n <= 0 {
        Seq::empty()
    } else {
        let before = skip_indices(from, fates, n - 1);
        if fates[n - 1] == Fate::NameTaken || fates[n - 1] == Fate::TargetExists {
            let idx = before.push(n - 1);
            assert forall|k: int| 0 <= k < idx.len() implies {
                let i = #[trigger] idx[k];
                &&& 0 <= i < n
                &&& fates[i] == Fate::NameTaken || fates[i] == Fate::TargetExists
                &&& skips_of(from, fates, n)[k].0 == from[i]
            } by {
                if k < before.len() {
                    assert(idx[k] == before[k]);
                }
            }
            assert forall|a: int, b: int| 0 <= a < b < idx.len() implies #[trigger] idx[a]
                < #[trigger] idx[b] by {
                assert(idx[a] == before[a]);
                if b < before.len() {
                    assert(idx[b] == before[b]);
                }
            }
            idx
        } else {
            before
        }
    }
}

proof fn duplicates_are_pairs(
    files: Seq<(Seq<char>, TagsView)>,
    pairs: Seq<(int, int)>,
    cfg: Config,
    existing: Seq<Seq<char>>,
    n: int,
)
    requires
        0 <= n,
    ensures
        duplicates_of(files, pairs, cfg, existing, n).len() == n,
        forall|k: int|
            0 <= k < n ==> (#[trigger] duplicates_of(files, pairs, cfg, existing, n)[k]).loser
                == files[pairs[k].1].0,
    decreases n,
{
    if n > 0 {
        duplicates_are_pairs(files, pairs, cfg, existing, n - 1);
        let before = duplicates_of(files, pairs, cfg, existing, n - 1);
        let all = duplicates_of(files, pairs, cfg, existing, n);
        assert forall|k: int| 0 <= k < n implies (#[trigger] all[k]).loser == files[pairs[k].1].0 by {
            if k < n - 1 {
                assert(all[k] == before[k]);
            }
        }
    }
}

/// Every file has one fate.
pub proof fn plan_adds_up(
    files: Seq<(Seq<char>, TagsView)>,
    cfg: Config,
    folder_hint: Seq<char>,
    release_type: Seq<char>,
    disk: Disk,
)
    ensures
        ({
            let p = group_plan(files, cfg, folder_hint, release_type, disk);
            p.moves.len() + p.skipped.len() + p.kept + p.duplicates.len() == files.len()
        }),
{
    let n = files.len() as int;
    let keys = song_keys(files);
    let sizes = sizes_of(files, disk);
    let info = group_info(files, folder_hint, release_type);
    let title = if files.len() > 0 {
        files[0].1.title
    } else {
        Seq::empty()
    };
    let dir = target_dir(bucket_of(info, cfg), info, cfg, title);
    let from = group_sources(files);
    let to = group_targets(files, info, cfg, dir);
    let fates = fates_of(from, to, losers_of(keys, sizes), disk.paths(), true);
    let pairs = pairs_of(keys, sizes, n);
    fates_add_up(from, to, fates, group_companions(files, cfg, disk), n);
    pairs_are_losers(keys, sizes);
    losing_count(keys, sizes, fates, n);
    seconds(pairs).unique_seq_to_set();
    duplicates_are_pairs(files, pairs, cfg, disk.paths(), pairs.len() as int);
}

/// The paths that a plan moves, those that it skips and those of the duplicates that lose, one
/// after the other.
pub open spec fn dealt_with(p: GroupPlanView) -> Seq<Seq<char>> {
    p.moves.map_values(|m: MoveView| m.from) + p.skipped.map_values(
        |s: (Seq<char>, Seq<char>)| s.0,
    ) + p.duplicates.map_values(|d: DuplicateView| d.loser)
}

/// A plan accounts for every file of the group exactly once: it is moved, it is skipped for a
/// stated reason, it is where it belongs, or it is a confirmed duplicate. No path is in two of
/// these, nor twice in one of them.
pub proof fn group_plan_accounts_for_every_file(
    files: Seq<(Seq<char>, TagsView)>,
    cfg: Config,
    folder_hint: Seq<char>,
    release_type: Seq<char>,
    disk: Disk,
)
    requires
        group_sources(files).no_duplicates(),
    ensures
        ({
            let p = group_plan(files, cfg, folder_hint, release_type, disk);
            &&& p.moves.len() + p.skipped.len() + p.kept + p.duplicates.len() == files.len()
            &&& dealt_with(p).no_duplicates()
            &&& forall|k: int|
                0 <= k < dealt_with(p).len() ==> group_sources(files).contains(
                    #[trigger] dealt_with(p)[k],
                )
        }),
{
    let n = files.len() as int;
    let keys = song_keys(files);
    let sizes = sizes_of(files, disk);
    let losers = losers_of(keys, sizes);
    let info = group_info(files, folder_hint, release_type);
    let title = if files.len() > 0 {
        files[0].1.title
    } else {
        Seq::empty()
    };
    let dir = target_dir(bucket_of(info, cfg), info, cfg, title);
    let from = group_sources(files);
    let to = group_targets(files, info, cfg, dir);
    let fates = fates_of(from, to, losers, disk.paths(), true);
    let with = group_companions(files, cfg, disk);
    let pairs = pairs_of(keys, sizes, n);
    let p = group_plan(files, cfg, folder_hint, release_type, disk);
    plan_adds_up(files, cfg, folder_hint, release_type, disk);
    pairs_are_losers(keys, sizes);
    pairs_hold(keys, sizes, n);
    duplicates_are_pairs(files, pairs, cfg, disk.paths(), pairs.len() as int);
    let moved = move_indices(from, to, fates, with, n);
    let skipped = skip_indices(from, fates, n);
    let all = dealt_with(p);
    let idx = moved + skipped + seconds(pairs);
    let m = moved.len();
    let s = skipped.len();
    assert(all.len() == idx.len());
    assert forall|k: int| 0 <= k < idx.len() implies 0 <= #[trigger] idx[k] < n && all[k]
        == from[idx[k]] && (k < m ==> fates[idx[k]] == Fate::Moved) && (m <= k < m + s ==> fates[idx[k]]
        == Fate::NameTaken || fates[idx[k]] == Fate::TargetExists) && (m + s <= k ==> fates[idx[k]]
        == Fate::Loser) by {
        if k < m {
            assert(idx[k] == moved[k]);
        } else if k < m + s {
            assert(idx[k] == skipped[k - m]);
        } else {
            let d = k - m - s;
            assert(idx[k] == pairs[d].1);
            assert(loses(keys, sizes, pairs[d].1));
            assert(p.duplicates[d].loser == files[pairs[d].1].0);
        }
    }
    assert forall|a: int, b: int| 0 <= a < b < idx.len() implies idx[a] != idx[b] by {
        if b < m {
            assert(moved[a] < moved[b]);
        } else if a >= m && b < m + s {
            assert(skipped[a - m] < skipped[b - m]);
        } else if a >= m + s {
            assert(seconds(pairs)[a - m - s] != seconds(pairs)[b - m - s]);
        } else {
            assert(0 <= idx[a] < n && 0 <= idx[b] < n);
        }
    }
    assert forall|a: int, b: int| 0 <= a < b < all.len() implies all[a] != all[b] by {
        assert(idx[a] != idx[b]);
        assert(all[a] == from[idx[a]] && all[b] == from[idx[b]]);
    }
    assert forall|k: int| 0 <= k < all.len() implies from.contains(#[trigger] all[k]) by {
        assert(0 <= idx[k] < n);
        assert(from[idx[k]] == all[k]);
    }
}

/// No move overwrites anything: no two moves have the same target, not even but for case, no
/// target exists, and every target lies in the album folder.
pub proof fn group_moves_never_overwrite(
    files: Seq<(Seq<char>, TagsView)>,
    cfg: Config,
    folder_hint: Seq<char>,
    release_type: Seq<char>,
    disk: Disk,
)
    ensures
        ({
            let p = group_plan(files, cfg, folder_hint, release_type, disk);
            &&& forall|a: int, b: int|
                0 <= a < b < p.moves.len() ==> !same_but_case(
                    (#[trigger] p.moves[a]).to,
                    (#[trigger] p.moves[b]).to,
                )
            &&& forall|a: int|
                0 <= a < p.moves.len() ==> {
                    &&& !disk.paths().contains((#[trigger] p.moves[a]).to)
                    &&& text::begins(p.moves[a].to, p.target_dir + "/"@)
                    &&& !same_but_case(p.moves[a].from, p.moves[a].to)
                    &&& group_sources(files).contains(p.moves[a].from)
                }
        }),
{
    let n = files.len() as int;
    let keys = song_keys(files);
    let sizes = sizes_of(files, disk);
    let losers = losers_of(keys, sizes);
    let info = group_info(files, folder_hint, release_type);
    let title = if files.len() > 0 {
        files[0].1.title
    } else {
        Seq::empty()
    };
    let dir = target_dir(bucket_of(info, cfg), info, cfg, title);
    let from = group_sources(files);
    let to = group_targets(files, info, cfg, dir);
    let fates = fates_of(from, to, losers, disk.paths(), true);
    let with = group_companions(files, cfg, disk);
    let p = group_plan(files, cfg, folder_hint, release_type, disk);
    let idx = move_indices(from, to, fates, with, n);
    assert forall|a: int, b: int| 0 <= a < b < p.moves.len() implies !same_but_case(
        (#[trigger] p.moves[a]).to,
        (#[trigger] p.moves[b]).to,
    ) by {
        let i = idx[a];
        let j = idx[b];
        assert(fates[i] == fate(from, to, losers, disk.paths(), true, i));
        assert(fates[j] == fate(from, to, losers, disk.paths(), true, j));
        assert(claims(from, to, losers, i));
        if same_but_case(to[i], to[j]) {
            assert(claimed_before(from, to, losers, j));
        }
    }
    assert forall|a: int| 0 <= a < p.moves.len() implies {
        &&& !disk.paths().contains((#[trigger] p.moves[a]).to)
        &&& text::begins(p.moves[a].to, p.target_dir + "/"@)
        &&& !same_but_case(p.moves[a].from, p.moves[a].to)
        &&& group_sources(files).contains(p.moves[a].from)
    } by {
        let i = idx[a];
        assert(fates[i] == fate(from, to, losers, disk.paths(), true, i));
        let inside = dir + "/"@;
        assert(to[i].subrange(0, inside.len() as int) == inside);
        assert(group_sources(files)[i] == p.moves[a].from);
    }
}

/// Some number is free.
pub proof fn free_number_exists(dir: Seq<char>, name: Seq<char>, ext: Seq<char>, occ: Seq<Seq<char>>)
    ensures
        exists|n: int| first_free(dir, name, ext, occ, n),
{
    let l = occ.len() as int;
    if forall|m: int| 2 <= m < l + 3 ==> occ.contains(#[trigger] numbered_path(dir, name, ext, m)) {
        let hits = Seq::new(
            (l + 1) as nat,
            |k: int|
                choose|at: int| 0 <= at < l && occ[at] == numbered_path(dir, name, ext, k + 2),
        );
        assert forall|k: int| 0 <= k < hits.len() implies 0 <= #[trigger] hits[k] < l && occ[hits[k]]
            == numbered_path(dir, name, ext, k + 2) by {
            assert(occ.contains(numbered_path(dir, name, ext, k + 2)));
        }
        assert(hits.no_duplicates()) by {
            assert forall|a: int, b: int| 0 <= a < b < hits.len() implies hits[a] != hits[b] by {
                if hits[a] == hits[b] {
                    numbered_paths_differ(dir, name, ext, a + 2, b + 2);
                }
            }
        }
        fits(hits, l as nat);
    } else {
        let m = choose|m: int|
            2 <= m < l + 3 && !occ.contains(#[trigger] numbered_path(dir, name, ext, m));
        least_free(dir, name, ext, occ, m);
    }
}

proof fn least_free(dir: Seq<char>, name: Seq<char>, ext: Seq<char>, occ: Seq<Seq<char>>, m: int)
    requires
        m >= 2,
        !occ.contains(numbered_path(dir, name, ext, m)),
    ensures
        exists|n: int| first_free(dir, name, ext, occ, n),
    decreases m,
{
    if forall|k: int| 2 <= k < m ==> occ.contains(#[trigger] numbered_path(dir, name, ext, k)) {
        assert(first_free(dir, name, ext, occ, m));
    } else {
        let k = choose|k: int|
            2 <= k < m && !occ.contains(#[trigger] numbered_path(dir, name, ext, k));
        least_free(dir, name, ext, occ, k);
    }
}

/// A duplicate never goes to an occupied path.
pub proof fn single_target_is_free(
    cfg: Config,
    occupied: Seq<Seq<char>>,
    album_artist: Seq<char>,
    album: Seq<char>,
    loser: Seq<char>,
)
    ensures
        !occupied.contains(single_target(cfg, occupied, album_artist, album, loser)),
{
    let dir = singles_dir(cfg, album_artist);
    let name = template::sanitized(stem(last_part(loser)), options(cfg));
    free_number_exists(dir, from_album(cfg, name, album), extension(loser), occupied);
}

/// A single lies in its artist's singles folder.
pub proof fn single_target_lies_there(
    cfg: Config,
    occupied: Seq<Seq<char>>,
    album_artist: Seq<char>,
    album: Seq<char>,
    loser: Seq<char>,
)
    ensures
        text::begins(
            single_target(cfg, occupied, album_artist, album, loser),
            singles_dir(cfg, album_artist) + "/"@,
        ),
{
    let front = singles_dir(cfg, album_artist) + "/"@;
    let t = single_target(cfg, occupied, album_artist, album, loser);
    assert(t.subrange(0, front.len() as int) =~= front);
}

/// Moving duplicates away never overwrites anything: each goes to a path of its own that does not
/// exist.
pub proof fn duplicates_never_overwrite(
    files: Seq<(Seq<char>, TagsView)>,
    pairs: Seq<(int, int)>,
    cfg: Config,
    existing: Seq<Seq<char>>,
    n: int,
)
    requires
        0 <= n <= pairs.len(),
    ensures
        ({
            let d = duplicates_of(files, pairs, cfg, existing, n);
            &&& d.len() == n
            &&& forall|a: int| 0 <= a < d.len() ==> !existing.contains((#[trigger] d[a]).target)
            &&& forall|a: int, b: int|
                0 <= a < b < d.len() ==> (#[trigger] d[a]).target != (#[trigger] d[b]).target
        }),
    decreases n,
{
    if n > 0 {
        duplicates_never_overwrite(files, pairs, cfg, existing, n - 1);
        let before = duplicates_of(files, pairs, cfg, existing, n - 1);
        let d = duplicates_of(files, pairs, cfg, existing, n);
        let l = files[pairs[n - 1].1];
        let occ = existing + targets_of(before);
        single_target_is_free(cfg, occ, l.1.album_artist, l.1.album, l.0);
        let t = d[n - 1].target;
        assert(!existing.contains(t)) by {
            if existing.contains(t) {
                let k = choose|k: int| 0 <= k < existing.len() && existing[k] == t;
                assert(occ[k] == t);
            }
        }
        assert forall|a: int, b: int| 0 <= a < b < d.len() implies (#[trigger] d[a]).target != (
        #[trigger] d[b]).target by {
            if b == n - 1 {
                if d[a].target == t {
                    assert(occ[existing.len() + a] == t);
                }
            } else {
                assert(d[a] == before[a] && d[b] == before[b]);
            }
        }
        assert forall|a: int| 0 <= a < d.len() implies !existing.contains((#[trigger] d[a]).target) by {
            if a < n - 1 {
                assert(d[a] == before[a]);
            }
        }
    }
}

/// Two files of different size are never a pair of winner and loser, whatever other files there
/// are.
pub proof fn different_sizes_are_no_duplicates(
    keys: Seq<Option<Seq<char>>>,
    sizes: Seq<u64>,
    k: int,
)
    requires
        keys.len() == sizes.len(),
        0 <= k < pairs_of(keys, sizes, keys.len() as int).len(),
    ensures
        sizes[pairs_of(keys, sizes, keys.len() as int)[k].0] == sizes[pairs_of(
            keys,
            sizes,
            keys.len() as int,
        )[k].1],
{
    pairs_hold(keys, sizes, keys.len() as int);
}

/// Of two files that are the same version of a song and of one size the later one always loses,
/// and it loses against the first such file.
pub proof fn equal_files_are_duplicates(
    keys: Seq<Option<Seq<char>>>,
    sizes: Seq<u64>,
    i: int,
    j: int,
)
    requires
        keys.len() == sizes.len(),
        0 <= i < j < keys.len(),
        same_song(keys, i, j),
        sizes[i] == sizes[j],
        forall|h: int| 0 <= h < i ==> !(same_song(keys, h, j) && #[trigger] sizes[h] == sizes[j]),
    ensures
        pairs_of(keys, sizes, keys.len() as int).contains((i, j)),
{
    let v = pairs_of(keys, sizes, keys.len() as int);
    pairs_hold(keys, sizes, keys.len() as int);
    assert(twins(keys, sizes, i, j));
    assert(!loses(keys, sizes, i)) by {
        if loses(keys, sizes, i) {
            let h = choose|h: int| 0 <= h < i && #[trigger] twins(keys, sizes, h, i);
            assert(sizes[h] == sizes[j]);
        }
    }
    let k = choose|k: int| 0 <= k < seconds(v).len() && seconds(v)[k] == j;
    assert(seconds(v).contains(j));
    let w = v[k].0;
    assert(twins(keys, sizes, w, j));
    if w < i {
        assert(sizes[w] == sizes[j]);
    } else if w > i {
        assert(twins(keys, sizes, i, w));
    }
    assert(v[k] == (i, j));
}

/// A keyword alone, with a word before or behind it, or in brackets marks a filler track.
pub proof fn filler_words_count(word: Seq<char>, other: Seq<char>)
    ensures
        word_in(word, word),
        word_in(word + " "@ + other, word),
        word_in(other + " "@ + word, word),
        word_in(other + " "@ + word + " "@ + other, word),
{
    let a = word + " "@ + other;
    assert(a.subrange(0, (word + " "@).len() as int) == word + " "@);
    let b = other + " "@ + word;
    let tail = " "@ + word;
    assert(b.subrange(b.len() - tail.len(), b.len() as int) == tail);
    let c = other + " "@ + word + " "@ + other;
    let mid = " "@ + word + " "@;
    assert(c.subrange(other.len() as int, (other.len() + mid.len()) as int) == mid);
    assert(text::stands_at(c, mid, other.len() as int));
}

/// A longer word that starts with the keyword does not mark a filler track.
pub proof fn longer_words_do_not_count(word: Seq<char>, more: Seq<char>)
    requires
        more.len() > 0,
        forall|i: int| 0 <= i < word.len() ==> 'a' <= #[trigger] word[i] <= 'z',
        forall|i: int| 0 <= i < more.len() ==> 'a' <= #[trigger] more[i] <= 'z',
    ensures
        !word_in(word + more, word),
{
    reveal_strlit(" ");
    reveal_strlit("-");
    reveal_strlit(":");
    reveal_strlit("(");
    reveal_strlit("[");
    reveal_strlit(")");
    reveal_strlit("]");
    let t = word + more;
    assert forall|i: int| 0 <= i < t.len() implies 'a' <= #[trigger] t[i] <= 'z' by {
        if i < word.len() {
            assert(t[i] == word[i]);
        } else {
            assert(t[i] == more[i - word.len()]);
        }
    }
    let n = word.len() as int;
    if text::begins(t, word + " "@) {
        assert(t.subrange(0, n + 1)[n] == (word + " "@)[n]);
        assert(t[n] == ' ');
    }
    if text::begins(t, word + "-"@) {
        assert(t.subrange(0, n + 1)[n] == (word + "-"@)[n]);
        assert(t[n] == '-');
    }
    if text::begins(t, word + ":"@) {
        assert(t.subrange(0, n + 1)[n] == (word + ":"@)[n]);
        assert(t[n] == ':');
    }
    if text::ends(t, " "@ + word) {
        let k = t.len() - n - 1;
        assert(t.subrange(k, k + n + 1)[0] == (" "@ + word)[0]);
        assert(t[k] == ' ');
    }
    let a = " "@ + word + " "@;
    if text::has(t, a) {
        let k = choose|k: int| text::stands_at(t, a, k);
        assert(t.subrange(k, k + a.len())[0] == a[0]);
        assert(t[k] == ' ');
    }
    let b = "("@ + word + ")"@;
    if text::has(t, b) {
        let k = choose|k: int| text::stands_at(t, b, k);
        assert(t.subrange(k, k + b.len())[0] == b[0]);
        assert(t[k] == '(');
    }
    let c = "["@ + word + "]"@;
    if text::has(t, c) {
        let k = choose|k: int| text::stands_at(t, c, k);
        assert(t.subrange(k, k + c.len())[0] == c[0]);
        assert(t[k] == '[');
    }
}

/// An album's plan accounts for every track exactly once: it is moved, it is skipped for a stated
/// reason, or it is where it belongs.
pub proof fn album_plan_accounts_for_every_track(
    album: AlbumDir,
    info: InfoView,
    cfg: Config,
    disk: Disk,
)
    ensures
        ({
            let p = album_plan(album, info, cfg, disk);
            p.moves.len() + p.skipped.len() + p.keeps == album.tracks@.len()
        }),
{
    let n = album.tracks@.len();
    let dir = target_dir(bucket_of(info, cfg), info, cfg, first_title(album.tracks@));
    let from = track_sources(album);
    let to = track_targets(album, info, cfg, dir);
    let fates = fates_of(from, to, no_losers(n), disk.paths(), dir.len() > 0);
    let with = track_companions(album, cfg, disk);
    fates_add_up(from, to, fates, with, n as int);
    no_fate_is_loser(fates, n as int);
}

proof fn no_fate_is_loser(fates: Seq<Fate>, n: int)
    requires
        0 <= n <= fates.len(),
        forall|i: int| 0 <= i < fates.len() ==> #[trigger] fates[i] != Fate::Loser,
    ensures
        count_of(fates, Fate::Loser, n) == 0,
    decreases n,
{
    if n > 0 {
        no_fate_is_loser(fates, n - 1);
    }
}

/// No move of an album's plan overwrites anything: no two moves have the same target, not even
/// but for case, and no target exists, unless the album belongs into the library root itself.
pub proof fn album_moves_never_overwrite(
    album: AlbumDir,
    info: InfoView,
    cfg: Config,
    disk: Disk,
)
    ensures
        ({
            let p = album_plan(album, info, cfg, disk);
            &&& forall|a: int, b: int|
                0 <= a < b < p.moves.len() ==> !same_but_case(
                    (#[trigger] p.moves[a]).to,
                    (#[trigger] p.moves[b]).to,
                )
            &&& forall|a: int|
                0 <= a < p.moves.len() ==> (p.target_dir.len() > 0 ==> !disk.paths().contains(
                    (#[trigger] p.moves[a]).to,
                )) && !same_but_case(p.moves[a].from, p.moves[a].to)
        }),
{
    let n = album.tracks@.len();
    let dir = target_dir(bucket_of(info, cfg), info, cfg, first_title(album.tracks@));
    let from = track_sources(album);
    let to = track_targets(album, info, cfg, dir);
    let none = no_losers(n);
    let guard = dir.len() > 0;
    let fates = fates_of(from, to, none, disk.paths(), guard);
    let with = track_companions(album, cfg, disk);
    let p = album_plan(album, info, cfg, disk);
    let idx = move_indices(from, to, fates, with, n as int);
    assert forall|a: int, b: int| 0 <= a < b < p.moves.len() implies !same_but_case(
        (#[trigger] p.moves[a]).to,
        (#[trigger] p.moves[b]).to,
    ) by {
        let i = idx[a];
        let j = idx[b];
        assert(fates[i] == fate(from, to, none, disk.paths(), guard, i));
        assert(fates[j] == fate(from, to, none, disk.paths(), guard, j));
        assert(claims(from, to, none, i));
        if same_but_case(to[i], to[j]) {
            assert(claimed_before(from, to, none, j));
        }
    }
    assert forall|a: int| 0 <= a < p.moves.len() implies (p.target_dir.len() > 0
        ==> !disk.paths().contains((#[trigger] p.moves[a]).to)) && !same_but_case(
        p.moves[a].from,
        p.moves[a].to,
    ) by {
        let i = idx[a];
        assert(fates[i] == fate(from, to, none, disk.paths(), guard, i));
    }
}

} // verus!
