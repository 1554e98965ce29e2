//! What is known of a track, put together from several sources.

use crate::tags::{TagsView, TrackTags};
use crate::text;
use vstd::prelude::*;

verus! {

/// Everything that can be known of a track. Numbers with a point keep their text.
#[derive(Debug, Clone)]
pub struct MetadataRecord {
    pub title: Option<String>,
    pub artist: Option<String>,
    pub album_artist: Option<String>,
    pub album: Option<String>,
    pub year: Option<u32>,
    pub track_number: Option<u32>,
    pub disc_number: Option<u32>,
    pub genre: Option<String>,
    pub genres: Vec<String>,
    pub mood: Option<String>,
    pub moods: Vec<String>,
    pub bpm: Option<String>,
    pub key: Option<String>,
    pub energy: Option<String>,
    pub description: Option<String>,
    pub artwork_url: Option<String>,
    pub lyrics: Option<String>,
    pub mbid_album: Option<String>,
    pub mbid_recording: Option<String>,
    pub credits: Vec<String>,
    pub style: Option<String>,
}

/// The mathematical value of a record.
#[verifier::ext_equal]
pub struct RecordView {
    pub title: Option<Seq<char>>,
    pub artist: Option<Seq<char>>,
    pub album_artist: Option<Seq<char>>,
    pub album: Option<Seq<char>>,
    pub year: Option<u32>,
    pub track_number: Option<u32>,
    pub disc_number: Option<u32>,
    pub genre: Option<Seq<char>>,
    pub genres: Seq<Seq<char>>,
    pub mood: Option<Seq<char>>,
    pub moods: Seq<Seq<char>>,
    pub bpm: Option<Seq<char>>,
    pub key: Option<Seq<char>>,
    pub energy: Option<Seq<char>>,
    pub description: Option<Seq<char>>,
    pub artwork_url: Option<Seq<char>>,
    pub lyrics: Option<Seq<char>>,
    pub mbid_album: Option<Seq<char>>,
    pub mbid_recording: Option<Seq<char>>,
    pub credits: Seq<Seq<char>>,
    pub style: Option<Seq<char>>,
}

impl View for MetadataRecord {
    type V = RecordView;

    open spec fn view(&self) -> RecordView {
        RecordView {
            title: text::view_opt(self.title),
            artist: text::view_opt(self.artist),
            album_artist: text::view_opt(self.album_artist),
            album: text::view_opt(self.album),
            year: self.year,
            track_number: self.track_number,
            disc_number: self.disc_number,
            genre: text::view_opt(self.genre),
            genres: text::views(self.genres@),
            mood: text::view_opt(self.mood),
            moods: text::views(self.moods@),
            bpm: text::view_opt(self.bpm),
            key: text::view_opt(self.key),
            energy: text::view_opt(self.energy),
            description: text::view_opt(self.description),
            artwork_url: text::view_opt(self.artwork_url),
            lyrics: text::view_opt(self.lyrics),
            mbid_album: text::view_opt(self.mbid_album),
            mbid_recording: text::view_opt(self.mbid_recording),
            credits: text::views(self.credits@),
            style: text::view_opt(self.style),
        }
    }
}

/// A record that says nothing.
pub open spec fn nothing() -> RecordView {
    RecordView {
        title: None,
        artist: None,
        album_artist: None,
        album: None,
        year: None,
        track_number: None,
        disc_number: None,
        genre: None,
        genres: Seq::empty(),
        mood: None,
        moods: Seq::empty(),
        bpm: None,
        key: None,
        energy: None,
        description: None,
        artwork_url: None,
        lyrics: None,
        mbid_album: None,
        mbid_recording: None,
        credits: Seq::empty(),
        style: None,
    }
}

impl Default for MetadataRecord {
    fn default() -> (r: Self)
        ensures
            r@ == nothing(),
    {
        let r = MetadataRecord {
            title: None,
            artist: None,
            album_artist: None,
            album: None,
            year: None,
            track_number: None,
            disc_number: None,
            genre: None,
            genres: Vec::new(),
            mood: None,
            moods: Vec::new(),
            bpm: None,
            key: None,
            energy: None,
            description: None,
            artwork_url: None,
            lyrics: None,
            mbid_album: None,
            mbid_recording: None,
            credits: Vec::new(),
            style: None,
        };
        assert(r@ =~= nothing());
        r
    }
}

/// What is there, else the other.
pub open spec fn first<T>(a: Option<T>, b: Option<T>) -> Option<T> {
    match a {
        Some(v) => Some(v),
        None => b,
    }
}

/// The list that says something, else the other.
pub open spec fn first_list(a: Seq<Seq<char>>, b: Seq<Seq<char>>) -> Seq<Seq<char>> {
    if a.len() > 0 {
        a
    } else {
        b
    }
}

/// A record whose gaps another one fills.
pub open spec fn filled(a: RecordView, b: RecordView) -> RecordView {
    RecordView {
        title: first(a.title, b.title),
        artist: first(a.artist, b.artist),
        album_artist: first(a.album_artist, b.album_artist),
        album: first(a.album, b.album),
        year: first(a.year, b.year),
        track_number: first(a.track_number, b.track_number),
        disc_number: first(a.disc_number, b.disc_number),
        genre: first(a.genre, b.genre),
        genres: first_list(a.genres, b.genres),
        mood: first(a.mood, b.mood),
        moods: first_list(a.moods, b.moods),
        bpm: first(a.bpm, b.bpm),
        key: first(a.key, b.key),
        energy: first(a.energy, b.energy),
        description: first(a.description, b.description),
        artwork_url: first(a.artwork_url, b.artwork_url),
        lyrics: first(a.lyrics, b.lyrics),
        mbid_album: first(a.mbid_album, b.mbid_album),
        mbid_recording: first(a.mbid_recording, b.mbid_recording),
        credits: first_list(a.credits, b.credits),
        style: first(a.style, b.style),
    }
}

fn fill_text(a: &mut Option<String>, b: &Option<String>)
    ensures
        text::view_opt(*final(a)) == first(text::view_opt(*old(a)), text::view_opt(*b)),
{
    if a.is_none() {
        match b {
            Some(s) => {
                *a = Some(s.clone());
            },
            None => {},
        }
    }
}

fn fill_number(a: &mut Option<u32>, b: Option<u32>)
    ensures
        *final(a) == first(*old(a), b),
{
    if a.is_none() {
        *a = b;
    }
}

fn fill_list(a: &mut Vec<String>, b: &Vec<String>)
    ensures
        text::views(final(a)@) == first_list(text::views(old(a)@), text::views(b@)),
{
    if a.len() == 0 {
        let ghost all = text::views(b@);
        let mut out: Vec<String> = Vec::new();
        let mut i: usize = 0;
        assert(text::views(out@) =~= all.take(0));
        while i < b.len()
            invariant
                i <= b@.len(),
                all == text::views(b@),
                text::views(out@) == all.take(i as int),
            decreases b@.len() - i,
        {
            let s = b[i].clone();
            proof {
                text::views_push(out@, s);
                assert(all.take(i + 1) =~= all.take(i as int).push(s@));
            }
            out.push(s);
            i = i + 1;
        }
        assert(all.take(i as int) =~= all);
        *a = out;
    }
}

impl MetadataRecord {
    /// Fills the gaps of this record from another one. What is there stays.
    pub fn fill_from(&mut self, other: &MetadataRecord)
        ensures
            final(self)@ == filled(old(self)@, other@),
    {
        fill_text(&mut self.title, &other.title);
        fill_text(&mut self.artist, &other.artist);
        fill_text(&mut self.album_artist, &other.album_artist);
        fill_text(&mut self.album, &other.album);
        fill_number(&mut self.year, other.year);
        fill_number(&mut self.track_number, other.track_number);
        fill_number(&mut self.disc_number, other.disc_number);
        fill_text(&mut self.genre, &other.genre);
        fill_list(&mut self.genres, &other.genres);
        fill_text(&mut self.mood, &other.mood);
        fill_list(&mut self.moods, &other.moods);
        fill_text(&mut self.bpm, &other.bpm);
        fill_text(&mut self.key, &other.key);
        fill_text(&mut self.energy, &other.energy);
        fill_text(&mut self.description, &other.description);
        fill_text(&mut self.artwork_url, &other.artwork_url);
        fill_text(&mut self.lyrics, &other.lyrics);
        fill_text(&mut self.mbid_album, &other.mbid_album);
        fill_text(&mut self.mbid_recording, &other.mbid_recording);
        fill_list(&mut self.credits, &other.credits);
        fill_text(&mut self.style, &other.style);
    }

    /// Takes in another record. The sources come in the order of their priority, so the first
    /// one that says something wins whatever the number.
    pub fn merge_with_priority(&mut self, other: &MetadataRecord, priority: u8)
        ensures
            final(self)@ == filled(old(self)@, other@),
    {
        self.fill_from(other);
    }
}

/// A text that says something.
pub open spec fn given(s: Seq<char>) -> Option<Seq<char>> {
    if s.len() == 0 {
        None
    } else {
        Some(s)
    }
}

/// What the tags of a file say.
pub open spec fn of_tags(t: TagsView) -> RecordView {
    RecordView {
        title: given(t.title),
        artist: given(t.artist),
        album_artist: given(t.album_artist),
        album: given(t.album),
        year: t.year,
        track_number: t.track,
        disc_number: t.disc,
        genre: given(t.genre),
        mbid_album: given(t.mbid_album),
        mbid_recording: given(t.mbid_recording),
        ..nothing()
    }
}

fn give(s: &String) -> (r: Option<String>)
    ensures
        text::view_opt(r) == given(s@),
{
    if text::length(s.as_str()) == 0 {
        None
    } else {
        Some(s.clone())
    }
}

/// The record of a track as its tags give it; other sources fill its gaps later.
pub fn collect_metadata(tags: &TrackTags) -> (r: MetadataRecord)
    ensures
        r@ == of_tags(tags@),
{
    let mut r = MetadataRecord::default();
    r.title = give(&tags.title);
    r.artist = give(&tags.artist);
    r.album_artist = give(&tags.album_artist);
    r.album = give(&tags.album);
    r.year = tags.year;
    r.track_number = tags.track;
    r.disc_number = tags.disc;
    r.genre = give(&tags.genre);
    r.mbid_album = give(&tags.mbid_album);
    r.mbid_recording = give(&tags.mbid_recording);
    r
}

// ---------------------------------------------------------------------------
// Laws

/// Filling from the same source again changes nothing.
pub proof fn filling_is_idempotent(a: RecordView, b: RecordView)
    ensures
        filled(filled(a, b), b) == filled(a, b),
{
    assert(filled(filled(a, b), b) =~= filled(a, b));
}

/// Sources can be put together before or after: what counts is their order.
pub proof fn filling_is_associative(a: RecordView, b: RecordView, c: RecordView)
    ensures
        filled(filled(a, b), c) == filled(a, filled(b, c)),
{
    assert(filled(filled(a, b), c) =~= filled(a, filled(b, c)));
}

/// An empty record neither adds nor takes anything.
pub proof fn nothing_adds_nothing(a: RecordView)
    ensures
        filled(a, nothing()) == a,
        filled(nothing(), a) == a,
{
    assert(filled(a, nothing()) =~= a);
    assert(filled(nothing(), a) =~= a);
}

/// What the tags of a file say is never replaced by another source.
pub proof fn tags_win(t: TagsView, other: RecordView)
    ensures
        t.title.len() > 0 ==> filled(of_tags(t), other).title == Some(t.title),
        t.artist.len() > 0 ==> filled(of_tags(t), other).artist == Some(t.artist),
        t.album_artist.len() > 0 ==> filled(of_tags(t), other).album_artist == Some(
            t.album_artist,
        ),
        t.album.len() > 0 ==> filled(of_tags(t), other).album == Some(t.album),
        t.year is Some ==> filled(of_tags(t), other).year == t.year,
        t.track is Some ==> filled(of_tags(t), other).track_number == t.track,
        t.disc is Some ==> filled(of_tags(t), other).disc_number == t.disc,
        t.genre.len() > 0 ==> filled(of_tags(t), other).genre == Some(t.genre),
        t.mbid_album.len() > 0 ==> filled(of_tags(t), other).mbid_album == Some(t.mbid_album),
        t.mbid_recording.len() > 0 ==> filled(of_tags(t), other).mbid_recording == Some(
            t.mbid_recording,
        ),
{
}

} // verus!
