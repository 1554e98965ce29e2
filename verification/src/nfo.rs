//! Kodi-style NFO sidecars.
//!
//! `album.nfo` and `artist.nfo` are XML files that users sometimes keep by hand. They fill
//! metadata that services cannot provide (styles, moods, biographies). They are read as a
//! fallback and rewritten once fresh metadata has been collected.

use crate::fraction;
use crate::text;
use quick_xml::events::Event;
use quick_xml::Reader;
use vstd::prelude::*;

verus! {

/// The contents of an `album.nfo`. The tempo is kept as the text of the number.
#[derive(Debug, Clone, PartialEq)]
pub struct NfoAlbum {
    pub title: String,
    pub artists: Vec<String>,
    pub album_artists: Vec<String>,
    pub year: Option<u32>,
    pub genres: Vec<String>,
    pub styles: Vec<String>,
    pub moods: Vec<String>,
    pub mbid: String,
    pub releasedate: String,
    pub description: String,
    /// The tempo. It is written with one digit behind its point.
    pub bpm: Option<String>,
    pub key: String,
    pub chords: Vec<String>,
    pub structure: Vec<String>,
    pub credits: Vec<NfoCredit>,
}

#[derive(Debug, Clone, PartialEq)]
pub struct NfoCredit {
    pub name: String,
    pub role: String,
}

/// The contents of an `artist.nfo`.
#[derive(Debug, Clone, PartialEq)]
pub struct NfoArtist {
    pub name: String,
    pub genres: Vec<String>,
    pub styles: Vec<String>,
    pub moods: Vec<String>,
    pub mbid: String,
    pub biography: String,
    pub similar_artists: Vec<String>,
}

/// The mathematical value of an album sidecar.
#[verifier::ext_equal]
pub struct AlbumNfoView {
    pub title: Seq<char>,
    pub artists: Seq<Seq<char>>,
    pub album_artists: Seq<Seq<char>>,
    pub year: Option<u32>,
    pub genres: Seq<Seq<char>>,
    pub styles: Seq<Seq<char>>,
    pub moods: Seq<Seq<char>>,
    pub mbid: Seq<char>,
    pub releasedate: Seq<char>,
    pub description: Seq<char>,
    pub bpm: Option<Seq<char>>,
    pub key: Seq<char>,
    pub chords: Seq<Seq<char>>,
    pub structure: Seq<Seq<char>>,
    pub credits: Seq<(Seq<char>, Seq<char>)>,
}

/// The mathematical value of an artist sidecar.
#[verifier::ext_equal]
pub struct ArtistNfoView {
    pub name: Seq<char>,
    pub genres: Seq<Seq<char>>,
    pub styles: Seq<Seq<char>>,
    pub moods: Seq<Seq<char>>,
    pub mbid: Seq<char>,
    pub biography: Seq<char>,
    pub similar_artists: Seq<Seq<char>>,
}

pub open spec fn credit_views(v: Seq<NfoCredit>) -> Seq<(Seq<char>, Seq<char>)> {
    Seq::new(v.len(), |i: int| (v[i].name@, v[i].role@))
}

impl View for NfoAlbum {
    type V = AlbumNfoView;

    open spec fn view(&self) -> AlbumNfoView {
        AlbumNfoView {
            title: self.title@,
            artists: text::views(self.artists@),
            album_artists: text::views(self.album_artists@),
            year: self.year,
            genres: text::views(self.genres@),
            styles: text::views(self.styles@),
            moods: text::views(self.moods@),
            mbid: self.mbid@,
            releasedate: self.releasedate@,
            description: self.description@,
            bpm: text::view_opt(self.bpm),
            key: self.key@,
            chords: text::views(self.chords@),
            structure: text::views(self.structure@),
            credits: credit_views(self.credits@),
        }
    }
}

impl View for NfoArtist {
    type V = ArtistNfoView;

    open spec fn view(&self) -> ArtistNfoView {
        ArtistNfoView {
            name: self.name@,
            genres: text::views(self.genres@),
            styles: text::views(self.styles@),
            moods: text::views(self.moods@),
            mbid: self.mbid@,
            biography: self.biography@,
            similar_artists: text::views(self.similar_artists@),
        }
    }
}

/// An album sidecar without contents.
pub open spec fn empty_album() -> AlbumNfoView {
    AlbumNfoView {
        title: Seq::empty(),
        artists: Seq::empty(),
        album_artists: Seq::empty(),
        year: None,
        genres: Seq::empty(),
        styles: Seq::empty(),
        moods: Seq::empty(),
        mbid: Seq::empty(),
        releasedate: Seq::empty(),
        description: Seq::empty(),
        bpm: None,
        key: Seq::empty(),
        chords: Seq::empty(),
        structure: Seq::empty(),
        credits: Seq::empty(),
    }
}

/// An artist sidecar without contents.
pub open spec fn empty_artist() -> ArtistNfoView {
    ArtistNfoView {
        name: Seq::empty(),
        genres: Seq::empty(),
        styles: Seq::empty(),
        moods: Seq::empty(),
        mbid: Seq::empty(),
        biography: Seq::empty(),
        similar_artists: Seq::empty(),
    }
}

impl Default for NfoAlbum {
    fn default() -> (r: Self)
        ensures
            r@ == empty_album(),
    {
        let r = NfoAlbum {
            title: String::new(),
            artists: Vec::new(),
            album_artists: Vec::new(),
            year: None,
            genres: Vec::new(),
            styles: Vec::new(),
            moods: Vec::new(),
            mbid: String::new(),
            releasedate: String::new(),
            description: String::new(),
            bpm: None,
            key: String::new(),
            chords: Vec::new(),
            structure: Vec::new(),
            credits: Vec::new(),
        };
        assert(r@ =~= empty_album());
        r
    }
}

impl Default for NfoArtist {
    fn default() -> (r: Self)
        ensures
            r@ == empty_artist(),
    {
        let r = NfoArtist {
            name: String::new(),
            genres: Vec::new(),
            styles: Vec::new(),
            moods: Vec::new(),
            mbid: String::new(),
            biography: String::new(),
            similar_artists: Vec::new(),
        };
        assert(r@ =~= empty_artist());
        r
    }
}

// ---------------------------------------------------------------------------
// XML events

/// One event of an XML document. Attributes that cannot be read are `None`; so is a text with an
/// unknown entity.
#[derive(Debug)]
pub enum XmlEvent {
    Start(String),
    Empty(String, Vec<Option<(String, String)>>),
    End,
    Text(Option<String>),
    Other,
    Error,
    Eof,
}

/// The mathematical value of an event.
pub enum EventView {
    Start(Seq<char>),
    Empty(Seq<char>, Seq<Option<(Seq<char>, Seq<char>)>>),
    End,
    Text(Option<Seq<char>>),
    Other,
    Error,
    Eof,
}

pub open spec fn attr_views(v: Seq<Option<(String, String)>>) -> Seq<
    Option<(Seq<char>, Seq<char>)>,
> {
    Seq::new(
        v.len(),
        |i: int|
            match v[i] {
                Some(p) => Some((p.0@, p.1@)),
                None => None,
            },
    )
}

impl View for XmlEvent {
    type V = EventView;

    open spec fn view(&self) -> EventView {
        match *self {
            XmlEvent::Start(n) => EventView::Start(n@),
            XmlEvent::Empty(n, a) => EventView::Empty(n@, attr_views(a@)),
            XmlEvent::End => EventView::End,
            XmlEvent::Text(t) => EventView::Text(text::view_opt(t)),
            XmlEvent::Other => EventView::Other,
            XmlEvent::Error => EventView::Error,
            XmlEvent::Eof => EventView::Eof,
        }
    }
}

pub open spec fn event_views(v: Seq<XmlEvent>) -> Seq<EventView> {
    Seq::new(v.len(), |i: int| v[i]@)
}

/// `quick_xml::Reader`, carried through unread.
#[verifier::external_type_specification]
#[verifier::external_body]
#[verifier::reject_recursive_types(R)]
pub struct ExReader<R>(Reader<R>);

/// The events of an XML text, with text trimmed, up to its end or up to and with the first
/// error.
pub uninterp spec fn xml_events(xml: Seq<char>) -> Seq<EventView>;

/// The events that a reader still has to give, up to the end or up to and with the first error.
pub uninterp spec fn events_left(reader: Reader<&[u8]>) -> Seq<EventView>;

/// One line of a sidecar inside its root element.
pub enum Line {
    Element(Seq<char>, Seq<char>),
    Credit(Seq<char>, Seq<char>),
}

pub open spec fn line_text(l: Line) -> Seq<char> {
    match l {
        Line::Element(tag, value) => line(tag, value),
        Line::Credit(name, role) => credit_line(name, role),
    }
}

pub open spec fn lines_text(ls: Seq<Line>) -> Seq<char>
    decreases ls.len(),
{
    if ls.len() == 0 {
        Seq::empty()
    } else {
        lines_text(ls.drop_last()) + line_text(ls.last())
    }
}

/// A sidecar made of lines.
pub open spec fn sidecar_text(root: Seq<char>, ls: Seq<Line>) -> Seq<char> {
    xml_head(root) + lines_text(ls) + xml_foot(root)
}

pub open spec fn line_events(l: Line) -> Seq<EventView> {
    match l {
        Line::Element(tag, value) => seq![
            EventView::Start(tag),
            EventView::Text(Some(value)),
            EventView::End,
        ],
        Line::Credit(name, role) => seq![
            EventView::Empty(
                "credit"@,
                seq![Some(("name"@, escaped(name))), Some(("role"@, escaped(role)))],
            ),
        ],
    }
}

pub open spec fn lines_events(ls: Seq<Line>) -> Seq<EventView>
    decreases ls.len(),
{
    if ls.len() == 0 {
        Seq::empty()
    } else {
        lines_events(ls.drop_last()) + line_events(ls.last())
    }
}

/// The events of a sidecar: the declaration, the root element, and in it the lines.
pub open spec fn sidecar_events(root: Seq<char>, ls: Seq<Line>) -> Seq<EventView> {
    (seq![EventView::Other, EventView::Start(root)] + lines_events(ls)).push(EventView::End)
}

/// A name of lower-case letters.
pub open spec fn plain_name(s: Seq<char>) -> bool {
    s.len() > 0 && forall|i: int| 0 <= i < s.len() ==> 'a' <= #[trigger] s[i] <= 'z'
}

/// The white space of XML.
pub open spec fn xml_space(c: char) -> bool {
    c == ' ' || c == '\t' || c == '\n' || c == '\r'
}

/// Elements with a plain name and a value that is neither empty nor surrounded by white space.
pub open spec fn plain_line(l: Line) -> bool {
    match l {
        Line::Element(tag, value) => plain_name(tag) && value.len() > 0 && !xml_space(value[0])
            && !xml_space(value.last()),
        Line::Credit(name, role) => true,
    }
}

pub open spec fn plain_lines(ls: Seq<Line>) -> bool {
    forall|i: int| 0 <= i < ls.len() ==> plain_line(#[trigger] ls[i])
}

/// `quick_xml::Reader::from_str` with `Config::trim_text(true)`: a reader at the start of the
/// text; its events depend on the text alone. Of a plain sidecar they are stated: for each
/// element its start, its text with the five entities resolved, and its end; for each credit an
/// empty element whose attributes keep their entities.
#[verifier::external_body]
fn open_reader(xml: &str) -> (r: Reader<&[u8]>)
    ensures
        events_left(r) == xml_events(xml@),
        forall|root: Seq<char>, ls: Seq<Line>|
            #![trigger sidecar_text(root, ls)]
            plain_name(root) && plain_lines(ls) && xml@ == sidecar_text(root, ls)
                ==> events_left(r) == sidecar_events(root, ls),
{
    let mut reader = Reader::from_str(xml);
    reader.config_mut().trim_text(true);
    reader
}

/// `quick_xml::Reader::read_event`: the next event, as a plain value. Each event other than the
/// end consumes some of the text; `Eof` comes when nothing is left. Nothing is stated of the
/// reader after an error.
#[verifier::external_body]
fn next_event(reader: &mut Reader<&[u8]>) -> (r: XmlEvent)
    ensures
        r is Eof <==> events_left(*old(reader)).len() == 0,
        r !is Eof ==> r@ == events_left(*old(reader))[0],
        r !is Eof && r !is Error ==> events_left(*final(reader)) == events_left(
            *old(reader),
        ).drop_first(),
        r is Error ==> events_left(*old(reader)).len() == 1,
{
    let name = |n: &[u8]| String::from_utf8_lossy(n).into_owned();
    let Ok(event) = reader.read_event() else {
        return XmlEvent::Error;
    };
    match event {
        Event::Start(e) => XmlEvent::Start(name(e.local_name().as_ref())),
        Event::Empty(e) => XmlEvent::Empty(
            name(e.local_name().as_ref()),
            e.attributes().map(|a| a.ok().map(|a| (name(a.key.0), name(&a.value)))).collect(),
        ),
        Event::End(_) => XmlEvent::End,
        Event::Text(t) => XmlEvent::Text(t.unescape().ok().map(String::from)),
        Event::Eof => XmlEvent::Eof,
        _ => XmlEvent::Other,
    }
}

/// Reads all events of an XML text.
pub fn read_events(xml: &str) -> (r: Vec<XmlEvent>)
    ensures
        event_views(r@) == xml_events(xml@),
        forall|root: Seq<char>, ls: Seq<Line>|
            #![trigger sidecar_text(root, ls)]
            plain_name(root) && plain_lines(ls) && xml@ == sidecar_text(root, ls) ==> xml_events(
                xml@,
            ) == sidecar_events(root, ls),
{
    let mut reader = open_reader(xml);
    let ghost all = xml_events(xml@);
    let mut out: Vec<XmlEvent> = Vec::new();
    assert(all.skip(0) == all);
    assert(event_views(out@) == all.take(0));
    loop
        invariant
            all == xml_events(xml@),
            forall|root: Seq<char>, ls: Seq<Line>|
                #![trigger sidecar_text(root, ls)]
                plain_name(root) && plain_lines(ls) && xml@ == sidecar_text(root, ls)
                    ==> xml_events(xml@) == sidecar_events(root, ls),
            out@.len() <= all.len(),
            event_views(out@) == all.take(out@.len() as int),
            events_left(reader) == all.skip(out@.len() as int),
        decreases all.len() - out@.len(),
    {
        let e = next_event(&mut reader);
        match e {
            XmlEvent::Eof => {
                assert(all.take(out@.len() as int) == all);
                return out;
            },
            XmlEvent::Error => {
                let ghost n = out@.len() as int;
                let ghost before = event_views(out@);
                out.push(XmlEvent::Error);
                proof {
                    assert(all.skip(n).len() == 1);
                    assert(all.skip(n)[0] == all[n]);
                    assert(event_views(out@) == before.push(all[n]));
                    assert(all.take(n).push(all[n]) == all);
                }
                return out;
            },
            other => {
                let ghost n = out@.len() as int;
                out.push(other);
                proof {
                    assert(all.skip(n)[0] == all[n]);
                    assert(event_views(out@) == all.take(n + 1));
                    assert(all.skip(n).drop_first() == all.skip(n + 1));
                }
            },
        }
    }
}

// ---------------------------------------------------------------------------
// Reading

/// The decimal digits of a text.
pub open spec fn digits_of(s: Seq<char>) -> Seq<char>
    decreases s.len(),
{
    if s.len() == 0 {
        s
    } else if text::is_digit(s.last()) {
        digits_of(s.drop_last()).push(s.last())
    } else {
        digits_of(s.drop_last())
    }
}

/// The first four digits of a text, as a number.
pub open spec fn year_in(s: Seq<char>) -> Option<int> {
    let d = digits_of(s);
    text::parsed_int(
        if d.len() > 4 {
            d.take(4)
        } else {
            d
        },
        0,
        u32::MAX as int,
    )
}

/// Whether an optional number is the given one.
pub open spec fn year_is(y: Option<u32>, n: Option<int>) -> bool {
    match (y, n) {
        (Some(a), Some(b)) => a == b,
        (None, None) => true,
        _ => false,
    }
}

pub open spec fn as_year(n: Option<int>) -> Option<u32> {
    match n {
        Some(v) => Some(v as u32),
        None => None,
    }
}

/// The year in a date: its first four digits.
pub fn parse_year(value: &str) -> (r: Option<u32>)
    ensures
        r == as_year(year_in(value@)),
        year_is(r, year_in(value@)),
{
    let v = text::chars_of(value);
    let mut digits: Vec<char> = Vec::new();
    let mut i: usize = 0;
    assert(value@.take(0) == Seq::<char>::empty());
    while i < v.len()
        invariant
            i <= v@.len(),
            v@ == value@,
            digits@ == digits_of(value@.take(i as int)),
        decreases v@.len() - i,
    {
        proof {
            assert(value@.take(i + 1).drop_last() == value@.take(i as int));
            assert(value@.take(i + 1).last() == value@[i as int]);
        }
        if text::char_is_digit(v[i]) {
            digits.push(v[i]);
        }
        i = i + 1;
    }
    assert(value@.take(i as int) == value@);
    let n: usize = if digits.len() > 4 {
        4
    } else {
        digits.len()
    };
    let d = text::text_of(&digits, 0, n);
    assert(d@ == if digits@.len() > 4 {
        digits@.take(4)
    } else {
        digits@
    });
    match text::parse_nat(d.as_str(), u32::MAX as u64) {
        Some(y) => Some(y as u32),
        None => None,
    }
}

/// The trimmed text of a text event, empty where it could not be read.
pub open spec fn event_text(t: Option<Seq<char>>) -> Seq<char> {
    match t {
        Some(s) => text::trimmed(s),
        None => Seq::empty(),
    }
}

/// The value of an attribute among the first `n`: the last one of that name counts.
pub open spec fn attribute(
    attrs: Seq<Option<(Seq<char>, Seq<char>)>>,
    name: Seq<char>,
) -> Seq<char>
    decreases attrs.len(),
{
    if attrs.len() == 0 {
        Seq::empty()
    } else {
        match attrs.last() {
            Some(p) => if p.0 == name {
                p.1
            } else {
                attribute(attrs.drop_last(), name)
            },
            None => attribute(attrs.drop_last(), name),
        }
    }
}

/// `list` with `value` added, unless it is empty.
pub open spec fn with(list: Seq<Seq<char>>, value: Seq<char>) -> Seq<Seq<char>> {
    if value.len() > 0 {
        list.push(value)
    } else {
        list
    }
}

/// `value`, or what was there where it is empty.
pub open spec fn or_kept(old_value: Seq<char>, value: Seq<char>) -> Seq<char> {
    if value.len() > 0 {
        value
    } else {
        old_value
    }
}

/// The album after a text in the element `field`.
pub open spec fn album_with(n: AlbumNfoView, field: Seq<char>, value: Seq<char>) -> AlbumNfoView {
    if field == "title"@ {
        AlbumNfoView { title: value, ..n }
    } else if field == "artist"@ {
        AlbumNfoView { artists: with(n.artists, value), ..n }
    } else if field == "albumartist"@ {
        AlbumNfoView { album_artists: with(n.album_artists, value), ..n }
    } else if field == "year"@ {
        AlbumNfoView { year: as_year(year_in(value)), ..n }
    } else if field == "genre"@ {
        AlbumNfoView { genres: with(n.genres, value), ..n }
    } else if field == "styles"@ {
        AlbumNfoView { styles: with(n.styles, value), ..n }
    } else if field == "moods"@ {
        AlbumNfoView { moods: with(n.moods, value), ..n }
    } else if field == "mbid"@ {
        AlbumNfoView { mbid: or_kept(n.mbid, value), ..n }
    } else if field == "releasedate"@ {
        AlbumNfoView { releasedate: or_kept(n.releasedate, value), ..n }
    } else if field == "description"@ {
        AlbumNfoView { description: or_kept(n.description, value), ..n }
    } else if field == "bpm"@ {
        AlbumNfoView {
            bpm: if fraction::float_literal(value) {
                Some(value)
            } else {
                None
            },
            ..n
        }
    } else if field == "key"@ {
        AlbumNfoView { key: or_kept(n.key, value), ..n }
    } else if field == "chord"@ {
        AlbumNfoView { chords: with(n.chords, value), ..n }
    } else if field == "structure"@ {
        AlbumNfoView { structure: with(n.structure, value), ..n }
    } else {
        n
    }
}

/// The elements that are open after an event.
pub open spec fn open_after(open: Seq<Seq<char>>, e: EventView) -> Seq<Seq<char>> {
    match e {
        EventView::Start(name) => open.push(text::lowered(name)),
        EventView::End => if open.len() > 0 {
            open.drop_last()
        } else {
            open
        },
        _ => open,
    }
}

/// The elements that are open after all events.
pub open spec fn open_elements(events: Seq<EventView>) -> Seq<Seq<char>>
    decreases events.len(),
{
    if events.len() == 0 {
        Seq::empty()
    } else {
        open_after(open_elements(events.drop_last()), events.last())
    }
}

/// The album after one more event, with the elements that were open before it.
pub open spec fn album_after(n: AlbumNfoView, open: Seq<Seq<char>>, e: EventView) -> AlbumNfoView {
    match e {
        EventView::Text(t) => if open.len() > 0 {
            album_with(n, open.last(), event_text(t))
        } else {
            n
        },
        EventView::Empty(name, attrs) => {
            let who = attribute(attrs, "name"@);
            if text::lowered(name) == "credit"@ && who.len() > 0 {
                AlbumNfoView {
                    credits: n.credits.push((who, attribute(attrs, "role"@))),
                    ..n
                }
            } else {
                n
            }
        },
        _ => n,
    }
}

/// The album that a sequence of events describes.
pub open spec fn album_of(events: Seq<EventView>) -> AlbumNfoView
    decreases events.len(),
{
    if events.len() == 0 {
        empty_album()
    } else {
        album_after(
            album_of(events.drop_last()),
            open_elements(events.drop_last()),
            events.last(),
        )
    }
}

/// Whether an event is an error.
pub open spec fn has_error(events: Seq<EventView>) -> bool {
    exists|i: int| 0 <= i < events.len() && (#[trigger] events[i]) is Error
}

/// An album counts as read where it has a title, an artist, a year or an id.
pub open spec fn useful_album(n: AlbumNfoView) -> bool {
    n.title.len() > 0 || n.artists.len() > 0 || n.year is Some || n.mbid.len() > 0
}

fn attribute_of(attrs: &Vec<Option<(String, String)>>, name: &str) -> (r: String)
    ensures
        r@ == attribute(attr_views(attrs@), name@),
{
    let ghost views = attr_views(attrs@);
    let mut i: usize = attrs.len();
    assert(views.take(i as int) == views);
    while i > 0
        invariant
            i <= attrs@.len(),
            views == attr_views(attrs@),
            attribute(views, name@) == attribute(views.take(i as int), name@),
        decreases i,
    {
        proof {
            assert(views.take(i as int).last() == views[i - 1]);
            assert(views.take(i as int).drop_last() == views.take(i - 1));
        }
        match &attrs[i - 1] {
            Some(p) => {
                if text::same(p.0.as_str(), name) {
                    return p.1.clone();
                }
            },
            None => {},
        }
        i = i - 1;
    }
    String::new()
}

fn push_filled(list: &mut Vec<String>, value: String)
    ensures
        text::views(final(list)@) == with(text::views(old(list)@), value@),
{
    if text::length(value.as_str()) > 0 {
        proof {
            text::views_push(list@, value);
        }
        list.push(value);
    }
}

fn set_filled(field: &mut String, value: String)
    ensures
        final(field)@ == or_kept(old(field)@, value@),
{
    if text::length(value.as_str()) > 0 {
        *field = value;
    }
}

impl NfoAlbum {
    /// Takes the text of the element `field` in.
    fn take_text(&mut self, field: &str, value: String)
        ensures
            final(self)@ == album_with(old(self)@, field@, value@),
    {
        if text::same(field, "title") {
            self.title = value;
        } else if text::same(field, "artist") {
            push_filled(&mut self.artists, value);
        } else if text::same(field, "albumartist") {
            push_filled(&mut self.album_artists, value);
        } else if text::same(field, "year") {
            self.year = parse_year(value.as_str());
        } else if text::same(field, "genre") {
            push_filled(&mut self.genres, value);
        } else if text::same(field, "styles") {
            push_filled(&mut self.styles, value);
        } else if text::same(field, "moods") {
            push_filled(&mut self.moods, value);
        } else if text::same(field, "mbid") {
            set_filled(&mut self.mbid, value);
        } else if text::same(field, "releasedate") {
            set_filled(&mut self.releasedate, value);
        } else if text::same(field, "description") {
            set_filled(&mut self.description, value);
        } else if text::same(field, "bpm") {
            if fraction::is_float_literal(value.as_str()) {
                self.bpm = Some(value);
            } else {
                self.bpm = None;
            }
        } else if text::same(field, "key") {
            set_filled(&mut self.key, value);
        } else if text::same(field, "chord") {
            push_filled(&mut self.chords, value);
        } else if text::same(field, "structure") {
            push_filled(&mut self.structure, value);
        }
    }
}

/// The trimmed text of a text event.
fn text_of_event(t: &Option<String>) -> (r: String)
    ensures
        r@ == event_text(text::view_opt(*t)),
{
    match t {
        Some(s) => text::trim(s.as_str()),
        None => String::new(),
    }
}

/// Keeps the list of open elements.
fn step_open(open: &mut Vec<String>, e: &XmlEvent)
    ensures
        text::views(final(open)@) == open_after(text::views(old(open)@), e@),
{
    match e {
        XmlEvent::Start(name) => {
            let low = text::lower(name.as_str());
            proof {
                text::views_push(open@, low);
            }
            open.push(low);
        },
        XmlEvent::End => {
            let ghost before = open@;
            let dropped = open.pop();
            proof {
                if before.len() > 0 {
                    assert(text::views(open@) == text::views(before).drop_last());
                } else {
                    assert(text::views(open@) == text::views(before));
                }
            }
        },
        _ => {},
    }
}

/// The album that events describe: `None` after an error or without any useful field.
pub fn album_from_events(events: &Vec<XmlEvent>) -> (r: Option<NfoAlbum>)
    ensures
        match r {
            Some(n) => !has_error(event_views(events@)) && useful_album(
                album_of(event_views(events@)),
            ) && n@ == album_of(event_views(events@)),
            None => has_error(event_views(events@)) || !useful_album(
                album_of(event_views(events@)),
            ),
        },
{
    let ghost all = event_views(events@);
    let mut nfo = NfoAlbum::default();
    let mut open: Vec<String> = Vec::new();
    let mut i: usize = 0;
    assert(all.take(0) == Seq::<EventView>::empty());
    assert(text::views(open@) == Seq::<Seq<char>>::empty());
    while i < events.len()
        invariant
            i <= events@.len(),
            all == event_views(events@),
            nfo@ == album_of(all.take(i as int)),
            text::views(open@) == open_elements(all.take(i as int)),
            forall|k: int| 0 <= k < i ==> (#[trigger] all[k]) !is Error,
        decreases events@.len() - i,
    {
        let e = &events[i];
        proof {
            assert(all[i as int] == e@);
            assert(all.take(i + 1).drop_last() == all.take(i as int));
            assert(all.take(i + 1).last() == e@);
        }
        match e {
            XmlEvent::Error => {
                assert(all[i as int] is Error);
                return None;
            },
            XmlEvent::Text(t) => {
                if open.len() > 0 {
                    let value = text_of_event(t);
                    assert(text::views(open@).last() == open@[open@.len() - 1]@);
                    nfo.take_text(open[open.len() - 1].as_str(), value);
                }
            },
            XmlEvent::Empty(name, attrs) => {
                let low = text::lower(name.as_str());
                if text::same(low.as_str(), "credit") {
                    let who = attribute_of(attrs, "name");
                    let role = attribute_of(attrs, "role");
                    if text::length(who.as_str()) > 0 {
                        let ghost before = nfo;
                        nfo.credits.push(NfoCredit { name: who, role });
                        proof {
                            assert(credit_views(nfo.credits@) == credit_views(
                                before.credits@,
                            ).push((who@, role@)));
                        }
                    }
                }
            },
            _ => {},
        }
        step_open(&mut open, e);
        i = i + 1;
    }
    assert(all.take(i as int) == all);
    if text::length(nfo.title.as_str()) == 0 && nfo.artists.len() == 0 && nfo.year.is_none()
        && text::length(nfo.mbid.as_str()) == 0 {
        None
    } else {
        Some(nfo)
    }
}

/// Reads an album sidecar.
pub fn parse_album_nfo(xml: &str) -> (r: Option<NfoAlbum>)
    ensures
        match r {
            Some(n) => !has_error(xml_events(xml@)) && useful_album(album_of(xml_events(xml@)))
                && n@ == album_of(xml_events(xml@)),
            None => has_error(xml_events(xml@)) || !useful_album(album_of(xml_events(xml@))),
        },
        // what was written is read back
        forall|n: AlbumNfoView|
            #![trigger album_text(n)]
            tidy_album(n) && xml@ == album_text(n) ==> r is Some && r->0@ == album_read_back(n),
{
    let events = read_events(xml);
    proof {
        assert forall|n: AlbumNfoView|
            #![trigger album_text(n)]
            tidy_album(n) && xml@ == album_text(n) implies !has_error(xml_events(xml@))
            && album_of(xml_events(xml@)) == album_read_back(n) by {
            album_text_is_sidecar(n);
            album_lines_are_plain(n);
            names_are_plain();
            album_of_sidecar(album_lines(n));
            album_lines_fold(n);
        }
    }
    album_from_events(&events)
}

/// The artist after a text in the element `field`.
pub open spec fn artist_with(n: ArtistNfoView, field: Seq<char>, value: Seq<char>) -> ArtistNfoView {
    if field == "name"@ {
        ArtistNfoView { name: value, ..n }
    } else if field == "genre"@ {
        ArtistNfoView { genres: with(n.genres, value), ..n }
    } else if field == "styles"@ {
        ArtistNfoView { styles: with(n.styles, value), ..n }
    } else if field == "moods"@ {
        ArtistNfoView { moods: with(n.moods, value), ..n }
    } else if field == "mbid"@ {
        ArtistNfoView { mbid: or_kept(n.mbid, value), ..n }
    } else if field == "biography"@ || field == "biog"@ {
        ArtistNfoView { biography: value, ..n }
    } else if field == "similarartist"@ {
        ArtistNfoView { similar_artists: with(n.similar_artists, value), ..n }
    } else {
        n
    }
}

/// The artist after one more event.
pub open spec fn artist_after(n: ArtistNfoView, open: Seq<Seq<char>>, e: EventView) -> ArtistNfoView {
    match e {
        EventView::Text(t) => if open.len() > 0 {
            artist_with(n, open.last(), event_text(t))
        } else {
            n
        },
        _ => n,
    }
}

/// The artist that a sequence of events describes.
pub open spec fn artist_of(events: Seq<EventView>) -> ArtistNfoView
    decreases events.len(),
{
    if events.len() == 0 {
        empty_artist()
    } else {
        artist_after(
            artist_of(events.drop_last()),
            open_elements(events.drop_last()),
            events.last(),
        )
    }
}

/// An artist counts as read where there is a name or an id.
pub open spec fn useful_artist(n: ArtistNfoView) -> bool {
    n.name.len() > 0 || n.mbid.len() > 0
}

impl NfoArtist {
    /// Takes the text of the element `field` in.
    fn take_text(&mut self, field: &str, value: String)
        ensures
            final(self)@ == artist_with(old(self)@, field@, value@),
    {
        if text::same(field, "name") {
            self.name = value;
        } else if text::same(field, "genre") {
            push_filled(&mut self.genres, value);
        } else if text::same(field, "styles") {
            push_filled(&mut self.styles, value);
        } else if text::same(field, "moods") {
            push_filled(&mut self.moods, value);
        } else if text::same(field, "mbid") {
            set_filled(&mut self.mbid, value);
        } else if text::same(field, "biography") || text::same(field, "biog") {
            self.biography = value;
        } else if text::same(field, "similarartist") {
            push_filled(&mut self.similar_artists, value);
        }
    }
}

/// The artist that events describe: `None` after an error or without name and id.
pub fn artist_from_events(events: &Vec<XmlEvent>) -> (r: Option<NfoArtist>)
    ensures
        match r {
            Some(n) => !has_error(event_views(events@)) && useful_artist(
                artist_of(event_views(events@)),
            ) && n@ == artist_of(event_views(events@)),
            None => has_error(event_views(events@)) || !useful_artist(
                artist_of(event_views(events@)),
            ),
        },
{
    let ghost all = event_views(events@);
    let mut nfo = NfoArtist::default();
    let mut open: Vec<String> = Vec::new();
    let mut i: usize = 0;
    assert(all.take(0) == Seq::<EventView>::empty());
    assert(text::views(open@) == Seq::<Seq<char>>::empty());
    while i < events.len()
        invariant
            i <= events@.len(),
            all == event_views(events@),
            nfo@ == artist_of(all.take(i as int)),
            text::views(open@) == open_elements(all.take(i as int)),
            forall|k: int| 0 <= k < i ==> (#[trigger] all[k]) !is Error,
        decreases events@.len() - i,
    {
        let e = &events[i];
        proof {
            assert(all[i as int] == e@);
            assert(all.take(i + 1).drop_last() == all.take(i as int));
            assert(all.take(i + 1).last() == e@);
        }
        match e {
            XmlEvent::Error => {
                assert(all[i as int] is Error);
                return None;
            },
            XmlEvent::Text(t) => {
                if open.len() > 0 {
                    let value = text_of_event(t);
                    assert(text::views(open@).last() == open@[open@.len() - 1]@);
                    nfo.take_text(open[open.len() - 1].as_str(), value);
                }
            },
            _ => {},
        }
        step_open(&mut open, e);
        i = i + 1;
    }
    assert(all.take(i as int) == all);
    if text::length(nfo.name.as_str()) == 0 && text::length(nfo.mbid.as_str()) == 0 {
        None
    } else {
        Some(nfo)
    }
}

/// Reads an artist sidecar.
pub fn parse_artist_nfo(xml: &str) -> (r: Option<NfoArtist>)
    ensures
        match r {
            Some(n) => !has_error(xml_events(xml@)) && useful_artist(artist_of(xml_events(xml@)))
                && n@ == artist_of(xml_events(xml@)),
            None => has_error(xml_events(xml@)) || !useful_artist(artist_of(xml_events(xml@))),
        },
        // what was written is read back
        forall|n: ArtistNfoView|
            #![trigger artist_text(n)]
            tidy_artist(n) && xml@ == artist_text(n) ==> r is Some && r->0@ == artist_read_back(n),
{
    let events = read_events(xml);
    proof {
        assert forall|n: ArtistNfoView|
            #![trigger artist_text(n)]
            tidy_artist(n) && xml@ == artist_text(n) implies !has_error(xml_events(xml@))
            && artist_of(xml_events(xml@)) == artist_read_back(n) by {
            artist_text_is_sidecar(n);
            artist_lines_are_plain(n);
            names_are_plain();
            artist_of_sidecar(artist_lines(n));
            artist_lines_fold(n);
        }
    }
    artist_from_events(&events)
}

// ---------------------------------------------------------------------------
// Writing

/// A character in XML text: the five special ones as entities.
pub open spec fn escaped_char(c: char) -> Seq<char> {
    if c == '&' {
        "&amp;"@
    } else if c == '<' {
        "&lt;"@
    } else if c == '>' {
        "&gt;"@
    } else if c == '"' {
        "&quot;"@
    } else if c == '\'' {
        "&apos;"@
    } else {
        seq![c]
    }
}

/// A text in XML.
pub open spec fn escaped(s: Seq<char>) -> Seq<char>
    decreases s.len(),
{
    if s.len() == 0 {
        Seq::empty()
    } else {
        escaped(s.drop_last()) + escaped_char(s.last())
    }
}

/// Escapes the special characters of XML.
pub fn esc(s: &str) -> (r: String)
    ensures
        r@ == escaped(s@),
{
    let v = text::chars_of(s);
    let mut out = String::new();
    let mut i: usize = 0;
    assert(s@.take(0) == Seq::<char>::empty());
    while i < v.len()
        invariant
            i <= v@.len(),
            v@ == s@,
            out@ == escaped(s@.take(i as int)),
        decreases v@.len() - i,
    {
        proof {
            assert(s@.take(i + 1).drop_last() == s@.take(i as int));
            assert(s@.take(i + 1).last() == s@[i as int]);
        }
        let c = v[i];
        if c == '&' {
            out.append("&amp;");
        } else if c == '<' {
            out.append("&lt;");
        } else if c == '>' {
            out.append("&gt;");
        } else if c == '"' {
            out.append("&quot;");
        } else if c == '\'' {
            out.append("&apos;");
        } else {
            let ghost before = out@;
            out.push(c);
            assert(out@ == before + seq![c]);
        }
        i = i + 1;
    }
    assert(s@.take(i as int) == s@);
    out
}

/// The start of a sidecar with the root element `root`.
pub open spec fn xml_head(root: Seq<char>) -> Seq<char> {
    "<?xml version=\"1.0\" encoding=\"utf-8\" standalone=\"yes\"?>\n<"@ + root + ">\n"@
}

/// The end of a sidecar.
pub open spec fn xml_foot(root: Seq<char>) -> Seq<char> {
    "</"@ + root + ">\n"@
}

/// A line with one element; `content` is already XML text.
pub open spec fn raw_line(tag: Seq<char>, content: Seq<char>) -> Seq<char> {
    "  <"@ + tag + ">"@ + content + "</"@ + tag + ">\n"@
}

/// A line with one element.
pub open spec fn line(tag: Seq<char>, value: Seq<char>) -> Seq<char> {
    raw_line(tag, escaped(value))
}

/// A line with one element, nothing for an empty value.
pub open spec fn filled_line(tag: Seq<char>, value: Seq<char>) -> Seq<char> {
    if value.len() > 0 {
        line(tag, value)
    } else {
        Seq::empty()
    }
}

/// One line for each value.
pub open spec fn all_lines(tag: Seq<char>, values: Seq<Seq<char>>) -> Seq<char>
    decreases values.len(),
{
    if values.len() == 0 {
        Seq::empty()
    } else {
        all_lines(tag, values.drop_last()) + line(tag, values.last())
    }
}

pub open spec fn year_line(year: Option<u32>) -> Seq<char> {
    match year {
        Some(y) => raw_line("year"@, text::decimal(y as nat)),
        None => Seq::empty(),
    }
}

pub open spec fn bpm_line(bpm: Option<Seq<char>>) -> Seq<char> {
    match bpm {
        Some(b) => raw_line("bpm"@, fraction::one_place(b)),
        None => Seq::empty(),
    }
}

pub open spec fn credit_line(name: Seq<char>, role: Seq<char>) -> Seq<char> {
    "  <credit name=\""@ + escaped(name) + "\" role=\""@ + escaped(role) + "\"/>\n"@
}

pub open spec fn credit_lines(credits: Seq<(Seq<char>, Seq<char>)>) -> Seq<char>
    decreases credits.len(),
{
    if credits.len() == 0 {
        Seq::empty()
    } else {
        credit_lines(credits.drop_last()) + credit_line(credits.last().0, credits.last().1)
    }
}

fn head_text(root: &str) -> (r: String)
    ensures
        r@ == xml_head(root@),
{
    let mut out = text::copy("<?xml version=\"1.0\" encoding=\"utf-8\" standalone=\"yes\"?>\n<");
    out.append(root);
    out.append(">\n");
    out
}

fn push_foot(out: &mut String, root: &str)
    ensures
        final(out)@ == old(out)@ + xml_foot(root@),
{
    let ghost before = out@;
    out.append("</");
    out.append(root);
    out.append(">\n");
    assert(out@ == before + xml_foot(root@));
}

fn push_raw_line(out: &mut String, tag: &str, content: &str)
    ensures
        final(out)@ == old(out)@ + raw_line(tag@, content@),
{
    let ghost before = out@;
    out.append("  <");
    out.append(tag);
    out.append(">");
    out.append(content);
    out.append("</");
    out.append(tag);
    out.append(">\n");
    assert(out@ == before + raw_line(tag@, content@));
}

fn push_filled_line(out: &mut String, tag: &str, value: &str)
    ensures
        final(out)@ == old(out)@ + filled_line(tag@, value@),
{
    if text::length(value) > 0 {
        let e = esc(value);
        push_raw_line(out, tag, e.as_str());
    } else {
        assert(out@ + Seq::<char>::empty() == out@);
    }
}

fn push_lines(out: &mut String, tag: &str, values: &Vec<String>)
    ensures
        final(out)@ == old(out)@ + all_lines(tag@, text::views(values@)),
{
    let ghost before = out@;
    let ghost views = text::views(values@);
    let mut i: usize = 0;
    assert(views.take(0) == Seq::<Seq<char>>::empty());
    assert(out@ == before + all_lines(tag@, views.take(0)));
    while i < values.len()
        invariant
            i <= values@.len(),
            views == text::views(values@),
            out@ == before + all_lines(tag@, views.take(i as int)),
        decreases values@.len() - i,
    {
        proof {
            assert(views.take(i + 1).drop_last() == views.take(i as int));
            assert(views.take(i + 1).last() == values@[i as int]@);
            assert(before + (all_lines(tag@, views.take(i as int)) + line(tag@, values@[i as int]@))
                == before + all_lines(tag@, views.take(i as int)) + line(tag@, values@[i as int]@));
        }
        let e = esc(values[i].as_str());
        push_raw_line(out, tag, e.as_str());
        i = i + 1;
    }
    assert(views.take(i as int) == views);
}

fn push_year(out: &mut String, year: Option<u32>)
    ensures
        final(out)@ == old(out)@ + year_line(year),
{
    match year {
        Some(y) => {
            let t = text::format_nat(y as u64);
            push_raw_line(out, "year", t.as_str());
        },
        None => {
            assert(out@ + Seq::<char>::empty() == out@);
        },
    }
}

fn push_bpm(out: &mut String, bpm: &Option<String>)
    ensures
        final(out)@ == old(out)@ + bpm_line(text::view_opt(*bpm)),
{
    match bpm {
        Some(b) => {
            push_raw_line(out, "bpm", fraction::to_one_place(b.as_str()).as_str());
        },
        None => {
            assert(out@ + Seq::<char>::empty() == out@);
        },
    }
}

fn push_credits(out: &mut String, credits: &Vec<NfoCredit>)
    ensures
        final(out)@ == old(out)@ + credit_lines(credit_views(credits@)),
{
    let ghost before = out@;
    let ghost views = credit_views(credits@);
    let mut i: usize = 0;
    assert(views.take(0) == Seq::<(Seq<char>, Seq<char>)>::empty());
    assert(out@ == before + credit_lines(views.take(0)));
    while i < credits.len()
        invariant
            i <= credits@.len(),
            views == credit_views(credits@),
            out@ == before + credit_lines(views.take(i as int)),
        decreases credits@.len() - i,
    {
        let ghost start = out@;
        let ghost done = credit_lines(views.take(i as int));
        let name = esc(credits[i].name.as_str());
        let role = esc(credits[i].role.as_str());
        out.append("  <credit name=\"");
        out.append(name.as_str());
        out.append("\" role=\"");
        out.append(role.as_str());
        out.append("\"/>\n");
        proof {
            let one = credit_line(views[i as int].0, views[i as int].1);
            assert(views.take(i + 1).drop_last() == views.take(i as int));
            assert(views.take(i + 1).last() == views[i as int]);
            assert(out@ == start + one);
            assert(before + (done + one) == before + done + one);
        }
        i = i + 1;
    }
    assert(views.take(i as int) == views);
}

/// An album sidecar as text.
pub open spec fn album_text(n: AlbumNfoView) -> Seq<char> {
    xml_head("album"@)
        + filled_line("title"@, n.title)
        + all_lines("artist"@, n.artists)
        + all_lines("albumartist"@, n.album_artists)
        + year_line(n.year)
        + all_lines("genre"@, n.genres)
        + all_lines("styles"@, n.styles)
        + all_lines("moods"@, n.moods)
        + filled_line("mbid"@, n.mbid)
        + filled_line("releasedate"@, n.releasedate)
        + filled_line("description"@, n.description)
        + bpm_line(n.bpm)
        + filled_line("key"@, n.key)
        + all_lines("chord"@, n.chords)
        + all_lines("structure"@, n.structure)
        + credit_lines(n.credits)
        + xml_foot("album"@)
}

/// Writes an album sidecar.
pub fn serialize_album(nfo: &NfoAlbum) -> (r: String)
    ensures
        r@ == album_text(nfo@),
{
    let mut out = head_text("album");
    push_filled_line(&mut out, "title", nfo.title.as_str());
    push_lines(&mut out, "artist", &nfo.artists);
    push_lines(&mut out, "albumartist", &nfo.album_artists);
    push_year(&mut out, nfo.year);
    push_lines(&mut out, "genre", &nfo.genres);
    push_lines(&mut out, "styles", &nfo.styles);
    push_lines(&mut out, "moods", &nfo.moods);
    push_filled_line(&mut out, "mbid", nfo.mbid.as_str());
    push_filled_line(&mut out, "releasedate", nfo.releasedate.as_str());
    push_filled_line(&mut out, "description", nfo.description.as_str());
    push_bpm(&mut out, &nfo.bpm);
    push_filled_line(&mut out, "key", nfo.key.as_str());
    push_lines(&mut out, "chord", &nfo.chords);
    push_lines(&mut out, "structure", &nfo.structure);
    push_credits(&mut out, &nfo.credits);
    push_foot(&mut out, "album");
    out
}

/// An artist sidecar as text.
pub open spec fn artist_text(n: ArtistNfoView) -> Seq<char> {
    xml_head("artist"@)
        + filled_line("name"@, n.name)
        + all_lines("genre"@, n.genres)
        + all_lines("styles"@, n.styles)
        + all_lines("moods"@, n.moods)
        + filled_line("mbid"@, n.mbid)
        + filled_line("biography"@, n.biography)
        + all_lines("similarartist"@, n.similar_artists)
        + xml_foot("artist"@)
}

/// Writes an artist sidecar.
pub fn serialize_artist(nfo: &NfoArtist) -> (r: String)
    ensures
        r@ == artist_text(nfo@),
{
    let mut out = head_text("artist");
    push_filled_line(&mut out, "name", nfo.name.as_str());
    push_lines(&mut out, "genre", &nfo.genres);
    push_lines(&mut out, "styles", &nfo.styles);
    push_lines(&mut out, "moods", &nfo.moods);
    push_filled_line(&mut out, "mbid", nfo.mbid.as_str());
    push_filled_line(&mut out, "biography", nfo.biography.as_str());
    push_lines(&mut out, "similarartist", &nfo.similar_artists);
    push_foot(&mut out, "artist");
    out
}

// ---------------------------------------------------------------------------
// Laws of escaping

/// The character at the start of an XML text, with the length of what stands for it.
pub open spec fn first_unescaped(s: Seq<char>) -> (char, int) {
    if text::begins(s, "&amp;"@) {
        ('&', 5)
    } else if text::begins(s, "&lt;"@) {
        ('<', 4)
    } else if text::begins(s, "&gt;"@) {
        ('>', 4)
    } else if text::begins(s, "&quot;"@) {
        ('"', 6)
    } else if text::begins(s, "&apos;"@) {
        ('\'', 6)
    } else {
        (s[0], 1)
    }
}

/// An XML text with its five entities resolved.
pub open spec fn unescaped(s: Seq<char>) -> Seq<char>
    decreases s.len(),
{
    if s.len() == 0 {
        Seq::empty()
    } else {
        let (c, n) = first_unescaped(s);
        if 0 < n <= s.len() {
            seq![c] + unescaped(s.skip(n))
        } else {
            Seq::empty()
        }
    }
}

proof fn entities()
    ensures
        "&amp;"@ == seq!['&', 'a', 'm', 'p', ';'],
        "&lt;"@ == seq!['&', 'l', 't', ';'],
        "&gt;"@ == seq!['&', 'g', 't', ';'],
        "&quot;"@ == seq!['&', 'q', 'u', 'o', 't', ';'],
        "&apos;"@ == seq!['&', 'a', 'p', 'o', 's', ';'],
{
    reveal_strlit("&amp;");
    reveal_strlit("&lt;");
    reveal_strlit("&gt;");
    reveal_strlit("&quot;");
    reveal_strlit("&apos;");
}

/// Escaping piece by piece: the first character first.
proof fn escaped_front(s: Seq<char>)
    requires
        s.len() > 0,
    ensures
        escaped(s) == escaped_char(s[0]) + escaped(s.skip(1)),
    decreases s.len(),
{
    if s.len() == 1 {
        assert(s.drop_last() == Seq::<char>::empty());
        assert(s.skip(1) == Seq::<char>::empty());
        assert(Seq::<char>::empty() + escaped_char(s[0]) == escaped_char(s[0]));
        assert(escaped_char(s[0]) + Seq::<char>::empty() == escaped_char(s[0]));
    } else {
        escaped_front(s.drop_last());
        assert(s.skip(1).drop_last() == s.drop_last().skip(1));
        assert(s.skip(1).last() == s.last());
        assert(escaped_char(s[0]) + escaped(s.drop_last().skip(1)) + escaped_char(s.last())
            == escaped_char(s[0]) + (escaped(s.drop_last().skip(1)) + escaped_char(s.last())));
    }
}

proof fn begins_with(a: Seq<char>, b: Seq<char>)
    ensures
        text::begins(a + b, a),
        (a + b).skip(a.len() as int) == b,
{
    assert((a + b).subrange(0, a.len() as int) == a);
    assert((a + b).skip(a.len() as int) == b);
}

proof fn not_begins(s: Seq<char>, pat: Seq<char>, i: int)
    requires
        0 <= i < pat.len(),
        i < s.len(),
        s[i] != pat[i],
    ensures
        !text::begins(s, pat),
{
    if text::begins(s, pat) {
        assert(s.subrange(0, pat.len() as int)[i] == pat[i]);
    }
}

/// Resolving the entities of an escaped text gives the text back: nothing is lost in a sidecar.
pub proof fn unescaping_undoes_escaping(s: Seq<char>)
    ensures
        unescaped(escaped(s)) == s,
    decreases s.len(),
{
    entities();
    if s.len() > 0 {
        escaped_front(s);
        let rest = escaped(s.skip(1));
        let e = escaped(s);
        let head = escaped_char(s[0]);
        begins_with(head, rest);
        unescaping_undoes_escaping(s.skip(1));
        if s[0] == '&' {
        } else if s[0] == '<' {
            not_begins(e, "&amp;"@, 1);
        } else if s[0] == '>' {
            not_begins(e, "&amp;"@, 1);
            not_begins(e, "&lt;"@, 1);
        } else if s[0] == '"' {
            not_begins(e, "&amp;"@, 1);
            not_begins(e, "&lt;"@, 1);
            not_begins(e, "&gt;"@, 1);
        } else if s[0] == '\'' {
            not_begins(e, "&amp;"@, 2);
            not_begins(e, "&lt;"@, 1);
            not_begins(e, "&gt;"@, 1);
            not_begins(e, "&quot;"@, 1);
        } else {
            not_begins(e, "&amp;"@, 0);
            not_begins(e, "&lt;"@, 0);
            not_begins(e, "&gt;"@, 0);
            not_begins(e, "&quot;"@, 0);
            not_begins(e, "&apos;"@, 0);
        }
        assert(first_unescaped(e) == (s[0], head.len() as int));
        assert(seq![s[0]] + s.skip(1) == s);
    }
}

/// Only the empty text is escaped to nothing.
proof fn escaped_keeps_nothing_empty(s: Seq<char>)
    ensures
        escaped(s).len() == 0 <==> s.len() == 0,
{
    unescaping_undoes_escaping(s);
}

/// An escaped text holds no markup: no angle bracket and no quote.
pub proof fn escaped_holds_no_markup(s: Seq<char>)
    ensures
        forall|i: int|
            0 <= i < escaped(s).len() ==> {
                let c = #[trigger] escaped(s)[i];
                c != '<' && c != '>' && c != '"' && c != '\''
            },
    decreases s.len(),
{
    entities();
    if s.len() > 0 {
        escaped_holds_no_markup(s.drop_last());
        let before = escaped(s.drop_last());
        let last = escaped_char(s.last());
        assert forall|i: int| 0 <= i < escaped(s).len() implies {
            let c = #[trigger] escaped(s)[i];
            c != '<' && c != '>' && c != '"' && c != '\''
        } by {
            if i < before.len() {
                assert(escaped(s)[i] == before[i]);
            } else {
                assert(escaped(s)[i] == last[i - before.len()]);
            }
        }
    }
}

// ---------------------------------------------------------------------------
// Laws of reading back

/// A text that trimming leaves as it is.
pub open spec fn tidy(s: Seq<char>) -> bool {
    text::trimmed(s) == s
}

/// Texts that trimming leaves as they are, none of them empty.
pub open spec fn tidy_list(v: Seq<Seq<char>>) -> bool {
    forall|i: int| 0 <= i < v.len() ==> tidy(#[trigger] v[i]) && v[i].len() > 0
}

/// An album that a sidecar can hold as it is: trimmed texts, no empty list entries, a year of at
/// most four digits, a tempo that is the text of a number.
pub open spec fn tidy_album(n: AlbumNfoView) -> bool {
    &&& tidy(n.title) && tidy(n.mbid) && tidy(n.releasedate) && tidy(n.description) && tidy(n.key)
    &&& tidy_list(n.artists) && tidy_list(n.album_artists) && tidy_list(n.genres)
    &&& tidy_list(n.styles) && tidy_list(n.moods) && tidy_list(n.chords) && tidy_list(n.structure)
    &&& n.year matches Some(y) ==> y <= 9999
    &&& n.bpm matches Some(b) ==> tidy(b) && b.len() > 0 && escaped(b) == b
        && fraction::float_literal(b) && fraction::one_place(b) == b
    &&& useful_album(n)
}

/// What is read back of a written album: all of it, but that the names and roles of the credits
/// keep their entities, and that credits without a name are dropped.
pub open spec fn album_read_back(n: AlbumNfoView) -> AlbumNfoView {
    AlbumNfoView { credits: credits_read_back(n.credits), ..n }
}

pub open spec fn credits_read_back(v: Seq<(Seq<char>, Seq<char>)>) -> Seq<(Seq<char>, Seq<char>)>
    decreases v.len(),
{
    if v.len() == 0 {
        Seq::empty()
    } else {
        let before = credits_read_back(v.drop_last());
        if v.last().0.len() > 0 {
            before.push((escaped(v.last().0), escaped(v.last().1)))
        } else {
            before
        }
    }
}

/// An artist that a sidecar can hold as it is.
pub open spec fn tidy_artist(n: ArtistNfoView) -> bool {
    &&& tidy(n.name) && tidy(n.mbid) && tidy(n.biography)
    &&& tidy_list(n.genres) && tidy_list(n.styles) && tidy_list(n.moods)
    &&& tidy_list(n.similar_artists)
    &&& useful_artist(n)
}

/// What is read back of a written artist: all of it.
pub open spec fn artist_read_back(n: ArtistNfoView) -> ArtistNfoView {
    n
}

spec fn filled_as_lines(tag: Seq<char>, value: Seq<char>) -> Seq<Line> {
    if value.len() > 0 {
        seq![Line::Element(tag, value)]
    } else {
        Seq::empty()
    }
}

spec fn list_as_lines(tag: Seq<char>, values: Seq<Seq<char>>) -> Seq<Line> {
    Seq::new(values.len(), |i: int| Line::Element(tag, values[i]))
}

spec fn year_as_lines(year: Option<u32>) -> Seq<Line> {
    match year {
        Some(y) => seq![Line::Element("year"@, text::decimal(y as nat))],
        None => Seq::empty(),
    }
}

spec fn bpm_as_lines(bpm: Option<Seq<char>>) -> Seq<Line> {
    match bpm {
        Some(b) => seq![Line::Element("bpm"@, b)],
        None => Seq::empty(),
    }
}

spec fn credits_as_lines(v: Seq<(Seq<char>, Seq<char>)>) -> Seq<Line> {
    Seq::new(v.len(), |i: int| Line::Credit(v[i].0, v[i].1))
}

spec fn album_lines(n: AlbumNfoView) -> Seq<Line> {
    filled_as_lines("title"@, n.title)
        + list_as_lines("artist"@, n.artists)
        + list_as_lines("albumartist"@, n.album_artists)
        + year_as_lines(n.year)
        + list_as_lines("genre"@, n.genres)
        + list_as_lines("styles"@, n.styles)
        + list_as_lines("moods"@, n.moods)
        + filled_as_lines("mbid"@, n.mbid)
        + filled_as_lines("releasedate"@, n.releasedate)
        + filled_as_lines("description"@, n.description)
        + bpm_as_lines(n.bpm)
        + filled_as_lines("key"@, n.key)
        + list_as_lines("chord"@, n.chords)
        + list_as_lines("structure"@, n.structure)
        + credits_as_lines(n.credits)
}

spec fn artist_lines(n: ArtistNfoView) -> Seq<Line> {
    filled_as_lines("name"@, n.name)
        + list_as_lines("genre"@, n.genres)
        + list_as_lines("styles"@, n.styles)
        + list_as_lines("moods"@, n.moods)
        + filled_as_lines("mbid"@, n.mbid)
        + filled_as_lines("biography"@, n.biography)
        + list_as_lines("similarartist"@, n.similar_artists)
}

proof fn tidy_ends(s: Seq<char>)
    requires
        tidy(s),
        s.len() > 0,
    ensures
        !text::is_white(s[0]),
        !text::is_white(s.last()),
{
    let front = text::strip_front(s, text::white());
    text::strip_front_is_suffix(s, text::white());
    text::strip_back_is_prefix(front, text::white());
    assert(front.len() == s.len());
    assert(s.skip(0) == s);
}

proof fn untrimmed(s: Seq<char>)
    requires
        s.len() > 0 ==> !text::is_white(s[0]) && !text::is_white(s.last()),
    ensures
        tidy(s),
{
}

proof fn no_specials_stay(s: Seq<char>)
    requires
        forall|i: int|
            0 <= i < s.len() ==> {
                let c = #[trigger] s[i];
                c != '&' && c != '<' && c != '>' && c != '"' && c != '\''
            },
    ensures
        escaped(s) == s,
    decreases s.len(),
{
    if s.len() > 0 {
        assert forall|i: int| 0 <= i < s.drop_last().len() implies {
            let c = #[trigger] s.drop_last()[i];
            c != '&' && c != '<' && c != '>' && c != '"' && c != '\''
        } by {
            assert(s.drop_last()[i] == s[i]);
        }
        no_specials_stay(s.drop_last());
        let c = s[s.len() - 1];
        assert(s.drop_last() + seq![c] == s);
    }
}

proof fn digits_stay(s: Seq<char>)
    requires
        text::all_digits(s),
    ensures
        digits_of(s) == s,
    decreases s.len(),
{
    if s.len() > 0 {
        assert forall|i: int| 0 <= i < s.drop_last().len() implies text::is_digit(
            #[trigger] s.drop_last()[i],
        ) by {
            assert(text::is_digit(s[i]));
        }
        digits_stay(s.drop_last());
        assert(text::is_digit(s[s.len() - 1]));
        assert(s.drop_last().push(s.last()) == s);
    }
}

proof fn year_reads_back(y: nat)
    requires
        y <= 9999,
    ensures
        year_in(text::decimal(y)) == Some(y as int),
        escaped(text::decimal(y)) == text::decimal(y),
        tidy(text::decimal(y)),
        text::decimal(y).len() > 0,
        !xml_space(text::decimal(y)[0]),
        !xml_space(text::decimal(y).last()),
{
    let d = text::decimal(y);
    text::decimal_reads_back(y);
    digits_stay(d);
    assert(d.len() <= 4) by {
        reveal_with_fuel(text::decimal, 5);
    }
    assert(text::is_digit(d[0]));
    assert(text::is_digit(d[d.len() - 1]));
    assert(d.take(4) == d || d.len() < 4);
    no_specials_stay(d);
    untrimmed(d);
}

proof fn lines_text_adds(a: Seq<Line>, b: Seq<Line>)
    ensures
        lines_text(a + b) == lines_text(a) + lines_text(b),
    decreases b.len(),
{
    if b.len() == 0 {
        assert(a + b == a);
        assert(lines_text(a) + Seq::<char>::empty() == lines_text(a));
    } else {
        lines_text_adds(a, b.drop_last());
        assert((a + b).drop_last() == a + b.drop_last());
        assert((a + b).last() == b.last());
        assert(lines_text(a) + lines_text(b.drop_last()) + line_text(b.last()) == lines_text(a) + (
        lines_text(b.drop_last()) + line_text(b.last())));
    }
}

proof fn one_line(l: Line)
    ensures
        lines_text(seq![l]) == line_text(l),
{
    reveal_with_fuel(lines_text, 2);
    assert(seq![l].drop_last() == Seq::<Line>::empty());
    assert(Seq::<char>::empty() + line_text(l) == line_text(l));
}

proof fn list_text(tag: Seq<char>, values: Seq<Seq<char>>)
    ensures
        lines_text(list_as_lines(tag, values)) == all_lines(tag, values),
    decreases values.len(),
{
    if values.len() > 0 {
        list_text(tag, values.drop_last());
        assert(list_as_lines(tag, values).drop_last() == list_as_lines(tag, values.drop_last()));
    }
}

proof fn credits_text(v: Seq<(Seq<char>, Seq<char>)>)
    ensures
        lines_text(credits_as_lines(v)) == credit_lines(v),
    decreases v.len(),
{
    if v.len() > 0 {
        credits_text(v.drop_last());
        assert(credits_as_lines(v).drop_last() == credits_as_lines(v.drop_last()));
    }
}

/// One more block of lines behind a text.
proof fn next_block(head: Seq<char>, ls: Seq<Line>, block: Seq<Line>)
    ensures
        head + lines_text(ls + block) == head + lines_text(ls) + lines_text(block),
{
    lines_text_adds(ls, block);
    assert(head + (lines_text(ls) + lines_text(block)) == head + lines_text(ls) + lines_text(block));
}

proof fn album_text_is_sidecar(n: AlbumNfoView)
    requires
        tidy_album(n),
    ensures
        album_text(n) == sidecar_text("album"@, album_lines(n)),
{
    let head = xml_head("album"@);
    let ls = Seq::<Line>::empty();
    assert(head + lines_text(ls) == head);
    let b0 = filled_as_lines("title"@, n.title);
    assert(lines_text(b0) == filled_line("title"@, n.title)) by {
        one_line(Line::Element("title"@, n.title));
    }
    let l0 = ls + b0;
    next_block(head, ls, b0);
    let b1 = list_as_lines("artist"@, n.artists);
    list_text("artist"@, n.artists);
    let l1 = l0 + b1;
    next_block(head, l0, b1);
    let b2 = list_as_lines("albumartist"@, n.album_artists);
    list_text("albumartist"@, n.album_artists);
    let l2 = l1 + b2;
    next_block(head, l1, b2);
    let b3 = year_as_lines(n.year);
    assert(lines_text(b3) == year_line(n.year)) by {
        if let Some(y) = n.year {
            year_reads_back(y as nat);
            one_line(Line::Element("year"@, text::decimal(y as nat)));
        }
    }
    let l3 = l2 + b3;
    next_block(head, l2, b3);
    let b4 = list_as_lines("genre"@, n.genres);
    list_text("genre"@, n.genres);
    let l4 = l3 + b4;
    next_block(head, l3, b4);
    let b5 = list_as_lines("styles"@, n.styles);
    list_text("styles"@, n.styles);
    let l5 = l4 + b5;
    next_block(head, l4, b5);
    let b6 = list_as_lines("moods"@, n.moods);
    list_text("moods"@, n.moods);
    let l6 = l5 + b6;
    next_block(head, l5, b6);
    let b7 = filled_as_lines("mbid"@, n.mbid);
    assert(lines_text(b7) == filled_line("mbid"@, n.mbid)) by {
        one_line(Line::Element("mbid"@, n.mbid));
    }
    let l7 = l6 + b7;
    next_block(head, l6, b7);
    let b8 = filled_as_lines("releasedate"@, n.releasedate);
    assert(lines_text(b8) == filled_line("releasedate"@, n.releasedate)) by {
        one_line(Line::Element("releasedate"@, n.releasedate));
    }
    let l8 = l7 + b8;
    next_block(head, l7, b8);
    let b9 = filled_as_lines("description"@, n.description);
    assert(lines_text(b9) == filled_line("description"@, n.description)) by {
        one_line(Line::Element("description"@, n.description));
    }
    let l9 = l8 + b9;
    next_block(head, l8, b9);
    let b10 = bpm_as_lines(n.bpm);
    assert(lines_text(b10) == bpm_line(n.bpm)) by {
        if let Some(b) = n.bpm {
            one_line(Line::Element("bpm"@, b));
        }
    }
    let l10 = l9 + b10;
    next_block(head, l9, b10);
    let b11 = filled_as_lines("key"@, n.key);
    assert(lines_text(b11) == filled_line("key"@, n.key)) by {
        one_line(Line::Element("key"@, n.key));
    }
    let l11 = l10 + b11;
    next_block(head, l10, b11);
    let b12 = list_as_lines("chord"@, n.chords);
    list_text("chord"@, n.chords);
    let l12 = l11 + b12;
    next_block(head, l11, b12);
    let b13 = list_as_lines("structure"@, n.structure);
    list_text("structure"@, n.structure);
    let l13 = l12 + b13;
    next_block(head, l12, b13);
    let b14 = credits_as_lines(n.credits);
    credits_text(n.credits);
    let l14 = l13 + b14;
    next_block(head, l13, b14);
    assert(ls + b0 == b0);
    assert(l14 == album_lines(n));
}

proof fn artist_text_is_sidecar(n: ArtistNfoView)
    requires
        tidy_artist(n),
    ensures
        artist_text(n) == sidecar_text("artist"@, artist_lines(n)),
{
    let head = xml_head("artist"@);
    let ls = Seq::<Line>::empty();
    assert(head + lines_text(ls) == head);
    let b0 = filled_as_lines("name"@, n.name);
    assert(lines_text(b0) == filled_line("name"@, n.name)) by {
        one_line(Line::Element("name"@, n.name));
    }
    let l0 = ls + b0;
    next_block(head, ls, b0);
    let b1 = list_as_lines("genre"@, n.genres);
    list_text("genre"@, n.genres);
    let l1 = l0 + b1;
    next_block(head, l0, b1);
    let b2 = list_as_lines("styles"@, n.styles);
    list_text("styles"@, n.styles);
    let l2 = l1 + b2;
    next_block(head, l1, b2);
    let b3 = list_as_lines("moods"@, n.moods);
    list_text("moods"@, n.moods);
    let l3 = l2 + b3;
    next_block(head, l2, b3);
    let b4 = filled_as_lines("mbid"@, n.mbid);
    assert(lines_text(b4) == filled_line("mbid"@, n.mbid)) by {
        one_line(Line::Element("mbid"@, n.mbid));
    }
    let l4 = l3 + b4;
    next_block(head, l3, b4);
    let b5 = filled_as_lines("biography"@, n.biography);
    assert(lines_text(b5) == filled_line("biography"@, n.biography)) by {
        one_line(Line::Element("biography"@, n.biography));
    }
    let l5 = l4 + b5;
    next_block(head, l4, b5);
    let b6 = list_as_lines("similarartist"@, n.similar_artists);
    list_text("similarartist"@, n.similar_artists);
    let l6 = l5 + b6;
    next_block(head, l5, b6);
    assert(ls + b0 == b0);
    assert(l6 == artist_lines(n));
}

proof fn names_are_plain()
    ensures
        plain_name("album"@),
        plain_name("albumartist"@),
        plain_name("artist"@),
        plain_name("biog"@),
        plain_name("biography"@),
        plain_name("bpm"@),
        plain_name("chord"@),
        plain_name("credit"@),
        plain_name("description"@),
        plain_name("genre"@),
        plain_name("key"@),
        plain_name("mbid"@),
        plain_name("moods"@),
        plain_name("name"@),
        plain_name("releasedate"@),
        plain_name("similarartist"@),
        plain_name("structure"@),
        plain_name("styles"@),
        plain_name("title"@),
        plain_name("year"@),
        plain_name("artist"@),
{
    reveal_strlit("album");
    reveal_strlit("albumartist");
    reveal_strlit("artist");
    reveal_strlit("biog");
    reveal_strlit("biography");
    reveal_strlit("bpm");
    reveal_strlit("chord");
    reveal_strlit("credit");
    reveal_strlit("description");
    reveal_strlit("genre");
    reveal_strlit("key");
    reveal_strlit("mbid");
    reveal_strlit("moods");
    reveal_strlit("name");
    reveal_strlit("releasedate");
    reveal_strlit("similarartist");
    reveal_strlit("structure");
    reveal_strlit("styles");
    reveal_strlit("title");
    reveal_strlit("year");
    reveal_strlit("artist");
}

proof fn tidy_value(s: Seq<char>)
    requires
        tidy(s),
        s.len() > 0,
    ensures
        !xml_space(s[0]),
        !xml_space(s.last()),
{
    tidy_ends(s);
}

proof fn list_is_plain(tag: Seq<char>, values: Seq<Seq<char>>)
    requires
        plain_name(tag),
        tidy_list(values),
    ensures
        plain_lines(list_as_lines(tag, values)),
{
    assert forall|i: int| 0 <= i < values.len() implies plain_line(
        #[trigger] list_as_lines(tag, values)[i],
    ) by {
        tidy_value(values[i]);
    }
}

proof fn filled_is_plain(tag: Seq<char>, value: Seq<char>)
    requires
        plain_name(tag),
        tidy(value),
    ensures
        plain_lines(filled_as_lines(tag, value)),
{
    if value.len() > 0 {
        tidy_value(value);
    }
}

proof fn plain_adds(a: Seq<Line>, b: Seq<Line>)
    requires
        plain_lines(a),
        plain_lines(b),
    ensures
        plain_lines(a + b),
{
    assert forall|i: int| 0 <= i < (a + b).len() implies plain_line(#[trigger] (a + b)[i]) by {
        if i < a.len() {
            assert((a + b)[i] == a[i]);
        } else {
            assert((a + b)[i] == b[i - a.len()]);
        }
    }
}

proof fn album_lines_are_plain(n: AlbumNfoView)
    requires
        tidy_album(n),
    ensures
        plain_lines(album_lines(n)),
{
    names_are_plain();
    let b0 = filled_as_lines("title"@, n.title);
    filled_is_plain("title"@, n.title);
    let l0 = b0;
    let b1 = list_as_lines("artist"@, n.artists);
    list_is_plain("artist"@, n.artists);
    let l1 = l0 + b1;
    plain_adds(l0, b1);
    let b2 = list_as_lines("albumartist"@, n.album_artists);
    list_is_plain("albumartist"@, n.album_artists);
    let l2 = l1 + b2;
    plain_adds(l1, b2);
    let b3 = year_as_lines(n.year);
    if let Some(y) = n.year {
        year_reads_back(y as nat);
    }
    let l3 = l2 + b3;
    plain_adds(l2, b3);
    let b4 = list_as_lines("genre"@, n.genres);
    list_is_plain("genre"@, n.genres);
    let l4 = l3 + b4;
    plain_adds(l3, b4);
    let b5 = list_as_lines("styles"@, n.styles);
    list_is_plain("styles"@, n.styles);
    let l5 = l4 + b5;
    plain_adds(l4, b5);
    let b6 = list_as_lines("moods"@, n.moods);
    list_is_plain("moods"@, n.moods);
    let l6 = l5 + b6;
    plain_adds(l5, b6);
    let b7 = filled_as_lines("mbid"@, n.mbid);
    filled_is_plain("mbid"@, n.mbid);
    let l7 = l6 + b7;
    plain_adds(l6, b7);
    let b8 = filled_as_lines("releasedate"@, n.releasedate);
    filled_is_plain("releasedate"@, n.releasedate);
    let l8 = l7 + b8;
    plain_adds(l7, b8);
    let b9 = filled_as_lines("description"@, n.description);
    filled_is_plain("description"@, n.description);
    let l9 = l8 + b9;
    plain_adds(l8, b9);
    let b10 = bpm_as_lines(n.bpm);
    if let Some(b) = n.bpm {
        tidy_value(b);
    }
    let l10 = l9 + b10;
    plain_adds(l9, b10);
    let b11 = filled_as_lines("key"@, n.key);
    filled_is_plain("key"@, n.key);
    let l11 = l10 + b11;
    plain_adds(l10, b11);
    let b12 = list_as_lines("chord"@, n.chords);
    list_is_plain("chord"@, n.chords);
    let l12 = l11 + b12;
    plain_adds(l11, b12);
    let b13 = list_as_lines("structure"@, n.structure);
    list_is_plain("structure"@, n.structure);
    let l13 = l12 + b13;
    plain_adds(l12, b13);
    let b14 = credits_as_lines(n.credits);
    let l14 = l13 + b14;
    plain_adds(l13, b14);
}

proof fn artist_lines_are_plain(n: ArtistNfoView)
    requires
        tidy_artist(n),
    ensures
        plain_lines(artist_lines(n)),
{
    names_are_plain();
    let b0 = filled_as_lines("name"@, n.name);
    filled_is_plain("name"@, n.name);
    let l0 = b0;
    let b1 = list_as_lines("genre"@, n.genres);
    list_is_plain("genre"@, n.genres);
    let l1 = l0 + b1;
    plain_adds(l0, b1);
    let b2 = list_as_lines("styles"@, n.styles);
    list_is_plain("styles"@, n.styles);
    let l2 = l1 + b2;
    plain_adds(l1, b2);
    let b3 = list_as_lines("moods"@, n.moods);
    list_is_plain("moods"@, n.moods);
    let l3 = l2 + b3;
    plain_adds(l2, b3);
    let b4 = filled_as_lines("mbid"@, n.mbid);
    filled_is_plain("mbid"@, n.mbid);
    let l4 = l3 + b4;
    plain_adds(l3, b4);
    let b5 = filled_as_lines("biography"@, n.biography);
    filled_is_plain("biography"@, n.biography);
    let l5 = l4 + b5;
    plain_adds(l4, b5);
    let b6 = list_as_lines("similarartist"@, n.similar_artists);
    list_is_plain("similarartist"@, n.similar_artists);
    let l6 = l5 + b6;
    plain_adds(l5, b6);
}

proof fn lower_names()
    ensures
        text::lowered("album"@) == "album"@,
        text::lowered("albumartist"@) == "albumartist"@,
        text::lowered("artist"@) == "artist"@,
        text::lowered("biog"@) == "biog"@,
        text::lowered("biography"@) == "biography"@,
        text::lowered("bpm"@) == "bpm"@,
        text::lowered("chord"@) == "chord"@,
        text::lowered("credit"@) == "credit"@,
        text::lowered("description"@) == "description"@,
        text::lowered("genre"@) == "genre"@,
        text::lowered("key"@) == "key"@,
        text::lowered("mbid"@) == "mbid"@,
        text::lowered("moods"@) == "moods"@,
        text::lowered("name"@) == "name"@,
        text::lowered("releasedate"@) == "releasedate"@,
        text::lowered("similarartist"@) == "similarartist"@,
        text::lowered("structure"@) == "structure"@,
        text::lowered("styles"@) == "styles"@,
        text::lowered("title"@) == "title"@,
        text::lowered("year"@) == "year"@,
        text::lowered("artist"@) == "artist"@,
{
    reveal_strlit("album");
    assert(text::lowered("album"@) == "album"@);
    reveal_strlit("albumartist");
    assert(text::lowered("albumartist"@) == "albumartist"@);
    reveal_strlit("artist");
    assert(text::lowered("artist"@) == "artist"@);
    reveal_strlit("biog");
    assert(text::lowered("biog"@) == "biog"@);
    reveal_strlit("biography");
    assert(text::lowered("biography"@) == "biography"@);
    reveal_strlit("bpm");
    assert(text::lowered("bpm"@) == "bpm"@);
    reveal_strlit("chord");
    assert(text::lowered("chord"@) == "chord"@);
    reveal_strlit("credit");
    assert(text::lowered("credit"@) == "credit"@);
    reveal_strlit("description");
    assert(text::lowered("description"@) == "description"@);
    reveal_strlit("genre");
    assert(text::lowered("genre"@) == "genre"@);
    reveal_strlit("key");
    assert(text::lowered("key"@) == "key"@);
    reveal_strlit("mbid");
    assert(text::lowered("mbid"@) == "mbid"@);
    reveal_strlit("moods");
    assert(text::lowered("moods"@) == "moods"@);
    reveal_strlit("name");
    assert(text::lowered("name"@) == "name"@);
    reveal_strlit("releasedate");
    assert(text::lowered("releasedate"@) == "releasedate"@);
    reveal_strlit("similarartist");
    assert(text::lowered("similarartist"@) == "similarartist"@);
    reveal_strlit("structure");
    assert(text::lowered("structure"@) == "structure"@);
    reveal_strlit("styles");
    assert(text::lowered("styles"@) == "styles"@);
    reveal_strlit("title");
    assert(text::lowered("title"@) == "title"@);
    reveal_strlit("year");
    assert(text::lowered("year"@) == "year"@);
    reveal_strlit("artist");
    assert(text::lowered("artist"@) == "artist"@);
}

proof fn credit_attributes(name: Seq<char>, role: Seq<char>)
    ensures
        ({
            let attrs = seq![Some(("name"@, name)), Some(("role"@, role))];
            &&& attribute(attrs, "name"@) == name
            &&& attribute(attrs, "role"@) == role
            &&& text::lowered("credit"@) == "credit"@
        }),
{
    let attrs = seq![Some(("name"@, name)), Some(("role"@, role))];
    lower_names();
    reveal_strlit("name");
    reveal_strlit("role");
    assert("name"@[0] == 'n' && "role"@[0] == 'r');
    assert(attrs.drop_last() == seq![Some(("name"@, name))]);
    assert(attrs.drop_last().last() == Some(("name"@, name)));
    reveal_with_fuel(attribute, 3);
}

/// The album after one more line.
spec fn album_take(n: AlbumNfoView, l: Line) -> AlbumNfoView {
    match l {
        Line::Element(tag, value) => album_with(n, text::lowered(tag), text::trimmed(value)),
        Line::Credit(name, role) => if name.len() > 0 {
            AlbumNfoView { credits: n.credits.push((escaped(name), escaped(role))), ..n }
        } else {
            n
        },
    }
}

spec fn album_fold(n: AlbumNfoView, ls: Seq<Line>) -> AlbumNfoView
    decreases ls.len(),
{
    if ls.len() == 0 {
        n
    } else {
        album_take(album_fold(n, ls.drop_last()), ls.last())
    }
}

proof fn album_fold_adds(n: AlbumNfoView, a: Seq<Line>, b: Seq<Line>)
    ensures
        album_fold(n, a + b) == album_fold(album_fold(n, a), b),
    decreases b.len(),
{
    if b.len() == 0 {
        assert(a + b == a);
    } else {
        album_fold_adds(n, a, b.drop_last());
        assert((a + b).drop_last() == a + b.drop_last());
        assert((a + b).last() == b.last());
    }
}

/// What one more event does.
pub proof fn album_of_push(e: Seq<EventView>, x: EventView)
    ensures
        album_of(e.push(x)) == album_after(album_of(e), open_elements(e), x),
        open_elements(e.push(x)) == open_after(open_elements(e), x),
        !has_error(e) && x !is Error ==> !has_error(e.push(x)),
{
    assert(e.push(x).drop_last() == e);
    if !has_error(e) && x !is Error {
        assert forall|i: int| 0 <= i < e.push(x).len() implies (#[trigger] e.push(x)[i]) !is Error by {
            if i < e.len() {
                assert(e.push(x)[i] == e[i]);
            }
        }
    }
}

/// What the events before the closing root tag leave: the root open and the lines taken in.
proof fn album_of_lines(ls: Seq<Line>)
    requires
        plain_lines(ls),
    ensures
        ({
            let e = seq![EventView::Other, EventView::Start("album"@)] + lines_events(ls);
            &&& open_elements(e) == seq![text::lowered("album"@)]
            &&& album_of(e) == album_fold(empty_album(), ls)
            &&& !has_error(e)
        }),
    decreases ls.len(),
{
    let start = seq![EventView::Other, EventView::Start("album"@)];
    let root = seq![text::lowered("album"@)];
    if ls.len() == 0 {
        let none = Seq::<EventView>::empty();
        album_of_push(none, EventView::Other);
        album_of_push(none.push(EventView::Other), EventView::Start("album"@));
        assert(start + lines_events(ls) == none.push(EventView::Other).push(
            EventView::Start("album"@),
        ));
        assert(Seq::<Seq<char>>::empty().push(text::lowered("album"@)) == root);
    } else {
        let front = ls.drop_last();
        assert forall|i: int| 0 <= i < front.len() implies plain_line(#[trigger] front[i]) by {
            assert(front[i] == ls[i]);
        }
        album_of_lines(front);
        let e0 = start + lines_events(front);
        album_of_line(e0, ls.last(), root);
        assert(start + lines_events(ls) == e0 + line_events(ls.last()));
    }
}

/// What the events of one more line do inside the root element.
proof fn album_of_line(e0: Seq<EventView>, l: Line, root: Seq<Seq<char>>)
    requires
        open_elements(e0) == root,
        root.len() == 1,
        !has_error(e0),
    ensures
        open_elements(e0 + line_events(l)) == root,
        album_of(e0 + line_events(l)) == album_take(album_of(e0), l),
        !has_error(e0 + line_events(l)),
{
    match l {
        Line::Element(tag, value) => {
            let e1 = e0.push(EventView::Start(tag));
            let e2 = e1.push(EventView::Text(Some(value)));
            album_of_push(e0, EventView::Start(tag));
            album_of_push(e1, EventView::Text(Some(value)));
            album_of_push(e2, EventView::End);
            assert(e0 + line_events(l) == e2.push(EventView::End));
            assert(root.push(text::lowered(tag)).drop_last() == root);
            assert(root.push(text::lowered(tag)).last() == text::lowered(tag));
        },
        Line::Credit(name, role) => {
            let attrs = seq![Some(("name"@, escaped(name))), Some(("role"@, escaped(role)))];
            album_of_push(e0, EventView::Empty("credit"@, attrs));
            assert(e0 + line_events(l) == e0.push(EventView::Empty("credit"@, attrs)));
            credit_attributes(escaped(name), escaped(role));
            escaped_keeps_nothing_empty(name);
        },
    }
}

proof fn album_of_sidecar(ls: Seq<Line>)
    requires
        plain_lines(ls),
    ensures
        !has_error(sidecar_events("album"@, ls)),
        album_of(sidecar_events("album"@, ls)) == album_fold(empty_album(), ls),
{
    album_of_lines(ls);
    let e = seq![EventView::Other, EventView::Start("album"@)] + lines_events(ls);
    let all = sidecar_events("album"@, ls);
    assert(all.drop_last() == e);
    assert forall|i: int| 0 <= i < all.len() implies (#[trigger] all[i]) !is Error by {
        if i < e.len() {
            assert(all[i] == e[i]);
        }
    }
}

/// The artist after one more line.
spec fn artist_take(n: ArtistNfoView, l: Line) -> ArtistNfoView {
    match l {
        Line::Element(tag, value) => artist_with(n, text::lowered(tag), text::trimmed(value)),
        Line::Credit(name, role) => n,
    }
}

spec fn artist_fold(n: ArtistNfoView, ls: Seq<Line>) -> ArtistNfoView
    decreases ls.len(),
{
    if ls.len() == 0 {
        n
    } else {
        artist_take(artist_fold(n, ls.drop_last()), ls.last())
    }
}

proof fn artist_fold_adds(n: ArtistNfoView, a: Seq<Line>, b: Seq<Line>)
    ensures
        artist_fold(n, a + b) == artist_fold(artist_fold(n, a), b),
    decreases b.len(),
{
    if b.len() == 0 {
        assert(a + b == a);
    } else {
        artist_fold_adds(n, a, b.drop_last());
        assert((a + b).drop_last() == a + b.drop_last());
        assert((a + b).last() == b.last());
    }
}

/// What one more event does.
pub proof fn artist_of_push(e: Seq<EventView>, x: EventView)
    ensures
        artist_of(e.push(x)) == artist_after(artist_of(e), open_elements(e), x),
        open_elements(e.push(x)) == open_after(open_elements(e), x),
        !has_error(e) && x !is Error ==> !has_error(e.push(x)),
{
    assert(e.push(x).drop_last() == e);
    if !has_error(e) && x !is Error {
        assert forall|i: int| 0 <= i < e.push(x).len() implies (#[trigger] e.push(x)[i]) !is Error by {
            if i < e.len() {
                assert(e.push(x)[i] == e[i]);
            }
        }
    }
}

/// What the events before the closing root tag leave: the root open and the lines taken in.
proof fn artist_of_lines(ls: Seq<Line>)
    requires
        plain_lines(ls),
    ensures
        ({
            let e = seq![EventView::Other, EventView::Start("artist"@)] + lines_events(ls);
            &&& open_elements(e) == seq![text::lowered("artist"@)]
            &&& artist_of(e) == artist_fold(empty_artist(), ls)
            &&& !has_error(e)
        }),
    decreases ls.len(),
{
    let start = seq![EventView::Other, EventView::Start("artist"@)];
    let root = seq![text::lowered("artist"@)];
    if ls.len() == 0 {
        let none = Seq::<EventView>::empty();
        artist_of_push(none, EventView::Other);
        artist_of_push(none.push(EventView::Other), EventView::Start("artist"@));
        assert(start + lines_events(ls) == none.push(EventView::Other).push(
            EventView::Start("artist"@),
        ));
        assert(Seq::<Seq<char>>::empty().push(text::lowered("artist"@)) == root);
    } else {
        let front = ls.drop_last();
        assert forall|i: int| 0 <= i < front.len() implies plain_line(#[trigger] front[i]) by {
            assert(front[i] == ls[i]);
        }
        artist_of_lines(front);
        let e0 = start + lines_events(front);
        artist_of_line(e0, ls.last(), root);
        assert(start + lines_events(ls) == e0 + line_events(ls.last()));
    }
}

/// What the events of one more line do inside the root element.
proof fn artist_of_line(e0: Seq<EventView>, l: Line, root: Seq<Seq<char>>)
    requires
        open_elements(e0) == root,
        root.len() == 1,
        !has_error(e0),
    ensures
        open_elements(e0 + line_events(l)) == root,
        artist_of(e0 + line_events(l)) == artist_take(artist_of(e0), l),
        !has_error(e0 + line_events(l)),
{
    match l {
        Line::Element(tag, value) => {
            let e1 = e0.push(EventView::Start(tag));
            let e2 = e1.push(EventView::Text(Some(value)));
            artist_of_push(e0, EventView::Start(tag));
            artist_of_push(e1, EventView::Text(Some(value)));
            artist_of_push(e2, EventView::End);
            assert(e0 + line_events(l) == e2.push(EventView::End));
            assert(root.push(text::lowered(tag)).drop_last() == root);
            assert(root.push(text::lowered(tag)).last() == text::lowered(tag));
        },
        Line::Credit(name, role) => {
            let attrs = seq![Some(("name"@, escaped(name))), Some(("role"@, escaped(role)))];
            artist_of_push(e0, EventView::Empty("credit"@, attrs));
            assert(e0 + line_events(l) == e0.push(EventView::Empty("credit"@, attrs)));
            credit_attributes(escaped(name), escaped(role));
        },
    }
}

proof fn artist_of_sidecar(ls: Seq<Line>)
    requires
        plain_lines(ls),
    ensures
        !has_error(sidecar_events("artist"@, ls)),
        artist_of(sidecar_events("artist"@, ls)) == artist_fold(empty_artist(), ls),
{
    artist_of_lines(ls);
    let e = seq![EventView::Other, EventView::Start("artist"@)] + lines_events(ls);
    let all = sidecar_events("artist"@, ls);
    assert(all.drop_last() == e);
    assert forall|i: int| 0 <= i < all.len() implies (#[trigger] all[i]) !is Error by {
        if i < e.len() {
            assert(all[i] == e[i]);
        }
    }
}

/// No two elements of an album's sidecar have the same name.
pub proof fn album_names_differ()
    ensures
        "artist"@ != "title"@,
        "albumartist"@ != "title"@,
        "albumartist"@ != "artist"@,
        "year"@ != "title"@,
        "year"@ != "artist"@,
        "year"@ != "albumartist"@,
        "genre"@ != "title"@,
        "genre"@ != "artist"@,
        "genre"@ != "albumartist"@,
        "genre"@ != "year"@,
        "styles"@ != "title"@,
        "styles"@ != "artist"@,
        "styles"@ != "albumartist"@,
        "styles"@ != "year"@,
        "styles"@ != "genre"@,
        "moods"@ != "title"@,
        "moods"@ != "artist"@,
        "moods"@ != "albumartist"@,
        "moods"@ != "year"@,
        "moods"@ != "genre"@,
        "moods"@ != "styles"@,
        "mbid"@ != "title"@,
        "mbid"@ != "artist"@,
        "mbid"@ != "albumartist"@,
        "mbid"@ != "year"@,
        "mbid"@ != "genre"@,
        "mbid"@ != "styles"@,
        "mbid"@ != "moods"@,
        "releasedate"@ != "title"@,
        "releasedate"@ != "artist"@,
        "releasedate"@ != "albumartist"@,
        "releasedate"@ != "year"@,
        "releasedate"@ != "genre"@,
        "releasedate"@ != "styles"@,
        "releasedate"@ != "moods"@,
        "releasedate"@ != "mbid"@,
        "description"@ != "title"@,
        "description"@ != "artist"@,
        "description"@ != "albumartist"@,
        "description"@ != "year"@,
        "description"@ != "genre"@,
        "description"@ != "styles"@,
        "description"@ != "moods"@,
        "description"@ != "mbid"@,
        "description"@ != "releasedate"@,
        "bpm"@ != "title"@,
        "bpm"@ != "artist"@,
        "bpm"@ != "albumartist"@,
        "bpm"@ != "year"@,
        "bpm"@ != "genre"@,
        "bpm"@ != "styles"@,
        "bpm"@ != "moods"@,
        "bpm"@ != "mbid"@,
        "bpm"@ != "releasedate"@,
        "bpm"@ != "description"@,
        "key"@ != "title"@,
        "key"@ != "artist"@,
        "key"@ != "albumartist"@,
        "key"@ != "year"@,
        "key"@ != "genre"@,
        "key"@ != "styles"@,
        "key"@ != "moods"@,
        "key"@ != "mbid"@,
        "key"@ != "releasedate"@,
        "key"@ != "description"@,
        "key"@ != "bpm"@,
        "chord"@ != "title"@,
        "chord"@ != "artist"@,
        "chord"@ != "albumartist"@,
        "chord"@ != "year"@,
        "chord"@ != "genre"@,
        "chord"@ != "styles"@,
        "chord"@ != "moods"@,
        "chord"@ != "mbid"@,
        "chord"@ != "releasedate"@,
        "chord"@ != "description"@,
        "chord"@ != "bpm"@,
        "chord"@ != "key"@,
        "structure"@ != "title"@,
        "structure"@ != "artist"@,
        "structure"@ != "albumartist"@,
        "structure"@ != "year"@,
        "structure"@ != "genre"@,
        "structure"@ != "styles"@,
        "structure"@ != "moods"@,
        "structure"@ != "mbid"@,
        "structure"@ != "releasedate"@,
        "structure"@ != "description"@,
        "structure"@ != "bpm"@,
        "structure"@ != "key"@,
        "structure"@ != "chord"@,
{
    reveal_strlit("title");
    reveal_strlit("artist");
    reveal_strlit("albumartist");
    reveal_strlit("year");
    reveal_strlit("genre");
    reveal_strlit("styles");
    reveal_strlit("moods");
    reveal_strlit("mbid");
    reveal_strlit("releasedate");
    reveal_strlit("description");
    reveal_strlit("bpm");
    reveal_strlit("key");
    reveal_strlit("chord");
    reveal_strlit("structure");
    assert("artist"@.len() != "title"@.len());
    assert("albumartist"@.len() != "title"@.len());
    assert("albumartist"@.len() != "artist"@.len());
    assert("year"@.len() != "title"@.len());
    assert("year"@.len() != "artist"@.len());
    assert("year"@.len() != "albumartist"@.len());
    assert("genre"@[0] != "title"@[0]);
    assert("genre"@.len() != "artist"@.len());
    assert("genre"@.len() != "albumartist"@.len());
    assert("genre"@.len() != "year"@.len());
    assert("styles"@.len() != "title"@.len());
    assert("styles"@[0] != "artist"@[0]);
    assert("styles"@.len() != "albumartist"@.len());
    assert("styles"@.len() != "year"@.len());
    assert("styles"@.len() != "genre"@.len());
    assert("moods"@[0] != "title"@[0]);
    assert("moods"@.len() != "artist"@.len());
    assert("moods"@.len() != "albumartist"@.len());
    assert("moods"@.len() != "year"@.len());
    assert("moods"@[0] != "genre"@[0]);
    assert("moods"@.len() != "styles"@.len());
    assert("mbid"@.len() != "title"@.len());
    assert("mbid"@.len() != "artist"@.len());
    assert("mbid"@.len() != "albumartist"@.len());
    assert("mbid"@[0] != "year"@[0]);
    assert("mbid"@.len() != "genre"@.len());
    assert("mbid"@.len() != "styles"@.len());
    assert("mbid"@.len() != "moods"@.len());
    assert("releasedate"@.len() != "title"@.len());
    assert("releasedate"@.len() != "artist"@.len());
    assert("releasedate"@[0] != "albumartist"@[0]);
    assert("releasedate"@.len() != "year"@.len());
    assert("releasedate"@.len() != "genre"@.len());
    assert("releasedate"@.len() != "styles"@.len());
    assert("releasedate"@.len() != "moods"@.len());
    assert("releasedate"@.len() != "mbid"@.len());
    assert("description"@.len() != "title"@.len());
    assert("description"@.len() != "artist"@.len());
    assert("description"@[0] != "albumartist"@[0]);
    assert("description"@.len() != "year"@.len());
    assert("description"@.len() != "genre"@.len());
    assert("description"@.len() != "styles"@.len());
    assert("description"@.len() != "moods"@.len());
    assert("description"@.len() != "mbid"@.len());
    assert("description"@[0] != "releasedate"@[0]);
    assert("bpm"@.len() != "title"@.len());
    assert("bpm"@.len() != "artist"@.len());
    assert("bpm"@.len() != "albumartist"@.len());
    assert("bpm"@.len() != "year"@.len());
    assert("bpm"@.len() != "genre"@.len());
    assert("bpm"@.len() != "styles"@.len());
    assert("bpm"@.len() != "moods"@.len());
    assert("bpm"@.len() != "mbid"@.len());
    assert("bpm"@.len() != "releasedate"@.len());
    assert("bpm"@.len() != "description"@.len());
    assert("key"@.len() != "title"@.len());
    assert("key"@.len() != "artist"@.len());
    assert("key"@.len() != "albumartist"@.len());
    assert("key"@.len() != "year"@.len());
    assert("key"@.len() != "genre"@.len());
    assert("key"@.len() != "styles"@.len());
    assert("key"@.len() != "moods"@.len());
    assert("key"@.len() != "mbid"@.len());
    assert("key"@.len() != "releasedate"@.len());
    assert("key"@.len() != "description"@.len());
    assert("key"@[0] != "bpm"@[0]);
    assert("chord"@[0] != "title"@[0]);
    assert("chord"@.len() != "artist"@.len());
    assert("chord"@.len() != "albumartist"@.len());
    assert("chord"@.len() != "year"@.len());
    assert("chord"@[0] != "genre"@[0]);
    assert("chord"@.len() != "styles"@.len());
    assert("chord"@[0] != "moods"@[0]);
    assert("chord"@.len() != "mbid"@.len());
    assert("chord"@.len() != "releasedate"@.len());
    assert("chord"@.len() != "description"@.len());
    assert("chord"@.len() != "bpm"@.len());
    assert("chord"@.len() != "key"@.len());
    assert("structure"@.len() != "title"@.len());
    assert("structure"@.len() != "artist"@.len());
    assert("structure"@.len() != "albumartist"@.len());
    assert("structure"@.len() != "year"@.len());
    assert("structure"@.len() != "genre"@.len());
    assert("structure"@.len() != "styles"@.len());
    assert("structure"@.len() != "moods"@.len());
    assert("structure"@.len() != "mbid"@.len());
    assert("structure"@.len() != "releasedate"@.len());
    assert("structure"@.len() != "description"@.len());
    assert("structure"@.len() != "bpm"@.len());
    assert("structure"@.len() != "key"@.len());
    assert("structure"@.len() != "chord"@.len());
}

/// No two elements of an artist's sidecar have the same name.
pub proof fn artist_names_differ()
    ensures
        "genre"@ != "name"@,
        "styles"@ != "name"@,
        "styles"@ != "genre"@,
        "moods"@ != "name"@,
        "moods"@ != "genre"@,
        "moods"@ != "styles"@,
        "mbid"@ != "name"@,
        "mbid"@ != "genre"@,
        "mbid"@ != "styles"@,
        "mbid"@ != "moods"@,
        "biography"@ != "name"@,
        "biography"@ != "genre"@,
        "biography"@ != "styles"@,
        "biography"@ != "moods"@,
        "biography"@ != "mbid"@,
        "similarartist"@ != "name"@,
        "similarartist"@ != "genre"@,
        "similarartist"@ != "styles"@,
        "similarartist"@ != "moods"@,
        "similarartist"@ != "mbid"@,
        "similarartist"@ != "biography"@,
        "biog"@ != "name"@,
        "biog"@ != "genre"@,
        "biog"@ != "styles"@,
        "biog"@ != "moods"@,
        "biog"@ != "mbid"@,
        "biog"@ != "biography"@,
        "biog"@ != "similarartist"@,
{
    reveal_strlit("name");
    reveal_strlit("genre");
    reveal_strlit("styles");
    reveal_strlit("moods");
    reveal_strlit("mbid");
    reveal_strlit("biography");
    reveal_strlit("similarartist");
    reveal_strlit("biog");
    assert("genre"@.len() != "name"@.len());
    assert("styles"@.len() != "name"@.len());
    assert("styles"@.len() != "genre"@.len());
    assert("moods"@.len() != "name"@.len());
    assert("moods"@[0] != "genre"@[0]);
    assert("moods"@.len() != "styles"@.len());
    assert("mbid"@[0] != "name"@[0]);
    assert("mbid"@.len() != "genre"@.len());
    assert("mbid"@.len() != "styles"@.len());
    assert("mbid"@.len() != "moods"@.len());
    assert("biography"@.len() != "name"@.len());
    assert("biography"@.len() != "genre"@.len());
    assert("biography"@.len() != "styles"@.len());
    assert("biography"@.len() != "moods"@.len());
    assert("biography"@.len() != "mbid"@.len());
    assert("similarartist"@.len() != "name"@.len());
    assert("similarartist"@.len() != "genre"@.len());
    assert("similarartist"@.len() != "styles"@.len());
    assert("similarartist"@.len() != "moods"@.len());
    assert("similarartist"@.len() != "mbid"@.len());
    assert("similarartist"@.len() != "biography"@.len());
    assert("biog"@[0] != "name"@[0]);
    assert("biog"@.len() != "genre"@.len());
    assert("biog"@.len() != "styles"@.len());
    assert("biog"@.len() != "moods"@.len());
    assert("biog"@[0] != "mbid"@[0]);
    assert("biog"@.len() != "biography"@.len());
    assert("biog"@.len() != "similarartist"@.len());
}

proof fn album_artists_fold(n: AlbumNfoView, values: Seq<Seq<char>>)
    requires
        tidy_list(values),
    ensures
        album_fold(n, list_as_lines("artist"@, values)) == (AlbumNfoView { artists: n.artists + values, ..n }),
    decreases values.len(),
{
    let ls = list_as_lines("artist"@, values);
    lower_names();
    album_names_differ();
    if values.len() == 0 {
        assert(n.artists + values == n.artists);
    } else {
        let front = values.drop_last();
        assert forall|i: int| 0 <= i < front.len() implies tidy(#[trigger] front[i])
            && front[i].len() > 0 by {
            assert(front[i] == values[i]);
        }
        album_artists_fold(n, front);
        assert(ls.drop_last() == list_as_lines("artist"@, front));
        let v = values[values.len() - 1];
        assert(tidy(v) && v.len() > 0);
        assert((n.artists + front).push(v) == n.artists + values);
    }
}

proof fn album_album_artists_fold(n: AlbumNfoView, values: Seq<Seq<char>>)
    requires
        tidy_list(values),
    ensures
        album_fold(n, list_as_lines("albumartist"@, values)) == (AlbumNfoView { album_artists: n.album_artists + values, ..n }),
    decreases values.len(),
{
    let ls = list_as_lines("albumartist"@, values);
    lower_names();
    album_names_differ();
    if values.len() == 0 {
        assert(n.album_artists + values == n.album_artists);
    } else {
        let front = values.drop_last();
        assert forall|i: int| 0 <= i < front.len() implies tidy(#[trigger] front[i])
            && front[i].len() > 0 by {
            assert(front[i] == values[i]);
        }
        album_album_artists_fold(n, front);
        assert(ls.drop_last() == list_as_lines("albumartist"@, front));
        let v = values[values.len() - 1];
        assert(tidy(v) && v.len() > 0);
        assert((n.album_artists + front).push(v) == n.album_artists + values);
    }
}

proof fn album_genres_fold(n: AlbumNfoView, values: Seq<Seq<char>>)
    requires
        tidy_list(values),
    ensures
        album_fold(n, list_as_lines("genre"@, values)) == (AlbumNfoView { genres: n.genres + values, ..n }),
    decreases values.len(),
{
    let ls = list_as_lines("genre"@, values);
    lower_names();
    album_names_differ();
    if values.len() == 0 {
        assert(n.genres + values == n.genres);
    } else {
        let front = values.drop_last();
        assert forall|i: int| 0 <= i < front.len() implies tidy(#[trigger] front[i])
            && front[i].len() > 0 by {
            assert(front[i] == values[i]);
        }
        album_genres_fold(n, front);
        assert(ls.drop_last() == list_as_lines("genre"@, front));
        let v = values[values.len() - 1];
        assert(tidy(v) && v.len() > 0);
        assert((n.genres + front).push(v) == n.genres + values);
    }
}

proof fn album_styles_fold(n: AlbumNfoView, values: Seq<Seq<char>>)
    requires
        tidy_list(values),
    ensures
        album_fold(n, list_as_lines("styles"@, values)) == (AlbumNfoView { styles: n.styles + values, ..n }),
    decreases values.len(),
{
    let ls = list_as_lines("styles"@, values);
    lower_names();
    album_names_differ();
    if values.len() == 0 {
        assert(n.styles + values == n.styles);
    } else {
        let front = values.drop_last();
        assert forall|i: int| 0 <= i < front.len() implies tidy(#[trigger] front[i])
            && front[i].len() > 0 by {
            assert(front[i] == values[i]);
        }
        album_styles_fold(n, front);
        assert(ls.drop_last() == list_as_lines("styles"@, front));
        let v = values[values.len() - 1];
        assert(tidy(v) && v.len() > 0);
        assert((n.styles + front).push(v) == n.styles + values);
    }
}

proof fn album_moods_fold(n: AlbumNfoView, values: Seq<Seq<char>>)
    requires
        tidy_list(values),
    ensures
        album_fold(n, list_as_lines("moods"@, values)) == (AlbumNfoView { moods: n.moods + values, ..n }),
    decreases values.len(),
{
    let ls = list_as_lines("moods"@, values);
    lower_names();
    album_names_differ();
    if values.len() == 0 {
        assert(n.moods + values == n.moods);
    } else {
        let front = values.drop_last();
        assert forall|i: int| 0 <= i < front.len() implies tidy(#[trigger] front[i])
            && front[i].len() > 0 by {
            assert(front[i] == values[i]);
        }
        album_moods_fold(n, front);
        assert(ls.drop_last() == list_as_lines("moods"@, front));
        let v = values[values.len() - 1];
        assert(tidy(v) && v.len() > 0);
        assert((n.moods + front).push(v) == n.moods + values);
    }
}

proof fn album_chords_fold(n: AlbumNfoView, values: Seq<Seq<char>>)
    requires
        tidy_list(values),
    ensures
        album_fold(n, list_as_lines("chord"@, values)) == (AlbumNfoView { chords: n.chords + values, ..n }),
    decreases values.len(),
{
    let ls = list_as_lines("chord"@, values);
    lower_names();
    album_names_differ();
    if values.len() == 0 {
        assert(n.chords + values == n.chords);
    } else {
        let front = values.drop_last();
        assert forall|i: int| 0 <= i < front.len() implies tidy(#[trigger] front[i])
            && front[i].len() > 0 by {
            assert(front[i] == values[i]);
        }
        album_chords_fold(n, front);
        assert(ls.drop_last() == list_as_lines("chord"@, front));
        let v = values[values.len() - 1];
        assert(tidy(v) && v.len() > 0);
        assert((n.chords + front).push(v) == n.chords + values);
    }
}

proof fn album_structure_fold(n: AlbumNfoView, values: Seq<Seq<char>>)
    requires
        tidy_list(values),
    ensures
        album_fold(n, list_as_lines("structure"@, values)) == (AlbumNfoView { structure: n.structure + values, ..n }),
    decreases values.len(),
{
    let ls = list_as_lines("structure"@, values);
    lower_names();
    album_names_differ();
    if values.len() == 0 {
        assert(n.structure + values == n.structure);
    } else {
        let front = values.drop_last();
        assert forall|i: int| 0 <= i < front.len() implies tidy(#[trigger] front[i])
            && front[i].len() > 0 by {
            assert(front[i] == values[i]);
        }
        album_structure_fold(n, front);
        assert(ls.drop_last() == list_as_lines("structure"@, front));
        let v = values[values.len() - 1];
        assert(tidy(v) && v.len() > 0);
        assert((n.structure + front).push(v) == n.structure + values);
    }
}

proof fn artist_genres_fold(n: ArtistNfoView, values: Seq<Seq<char>>)
    requires
        tidy_list(values),
    ensures
        artist_fold(n, list_as_lines("genre"@, values)) == (ArtistNfoView { genres: n.genres + values, ..n }),
    decreases values.len(),
{
    let ls = list_as_lines("genre"@, values);
    lower_names();
    artist_names_differ();
    if values.len() == 0 {
        assert(n.genres + values == n.genres);
    } else {
        let front = values.drop_last();
        assert forall|i: int| 0 <= i < front.len() implies tidy(#[trigger] front[i])
            && front[i].len() > 0 by {
            assert(front[i] == values[i]);
        }
        artist_genres_fold(n, front);
        assert(ls.drop_last() == list_as_lines("genre"@, front));
        let v = values[values.len() - 1];
        assert(tidy(v) && v.len() > 0);
        assert((n.genres + front).push(v) == n.genres + values);
    }
}

proof fn artist_styles_fold(n: ArtistNfoView, values: Seq<Seq<char>>)
    requires
        tidy_list(values),
    ensures
        artist_fold(n, list_as_lines("styles"@, values)) == (ArtistNfoView { styles: n.styles + values, ..n }),
    decreases values.len(),
{
    let ls = list_as_lines("styles"@, values);
    lower_names();
    artist_names_differ();
    if values.len() == 0 {
        assert(n.styles + values == n.styles);
    } else {
        let front = values.drop_last();
        assert forall|i: int| 0 <= i < front.len() implies tidy(#[trigger] front[i])
            && front[i].len() > 0 by {
            assert(front[i] == values[i]);
        }
        artist_styles_fold(n, front);
        assert(ls.drop_last() == list_as_lines("styles"@, front));
        let v = values[values.len() - 1];
        assert(tidy(v) && v.len() > 0);
        assert((n.styles + front).push(v) == n.styles + values);
    }
}

proof fn artist_moods_fold(n: ArtistNfoView, values: Seq<Seq<char>>)
    requires
        tidy_list(values),
    ensures
        artist_fold(n, list_as_lines("moods"@, values)) == (ArtistNfoView { moods: n.moods + values, ..n }),
    decreases values.len(),
{
    let ls = list_as_lines("moods"@, values);
    lower_names();
    artist_names_differ();
    if values.len() == 0 {
        assert(n.moods + values == n.moods);
    } else {
        let front = values.drop_last();
        assert forall|i: int| 0 <= i < front.len() implies tidy(#[trigger] front[i])
            && front[i].len() > 0 by {
            assert(front[i] == values[i]);
        }
        artist_moods_fold(n, front);
        assert(ls.drop_last() == list_as_lines("moods"@, front));
        let v = values[values.len() - 1];
        assert(tidy(v) && v.len() > 0);
        assert((n.moods + front).push(v) == n.moods + values);
    }
}

proof fn artist_similar_artists_fold(n: ArtistNfoView, values: Seq<Seq<char>>)
    requires
        tidy_list(values),
    ensures
        artist_fold(n, list_as_lines("similarartist"@, values)) == (ArtistNfoView { similar_artists: n.similar_artists + values, ..n }),
    decreases values.len(),
{
    let ls = list_as_lines("similarartist"@, values);
    lower_names();
    artist_names_differ();
    if values.len() == 0 {
        assert(n.similar_artists + values == n.similar_artists);
    } else {
        let front = values.drop_last();
        assert forall|i: int| 0 <= i < front.len() implies tidy(#[trigger] front[i])
            && front[i].len() > 0 by {
            assert(front[i] == values[i]);
        }
        artist_similar_artists_fold(n, front);
        assert(ls.drop_last() == list_as_lines("similarartist"@, front));
        let v = values[values.len() - 1];
        assert(tidy(v) && v.len() > 0);
        assert((n.similar_artists + front).push(v) == n.similar_artists + values);
    }
}

proof fn album_credits_fold(n: AlbumNfoView, v: Seq<(Seq<char>, Seq<char>)>)
    ensures
        album_fold(n, credits_as_lines(v)) == (AlbumNfoView {
            credits: n.credits + credits_read_back(v),
            ..n
        }),
    decreases v.len(),
{
    let ls = credits_as_lines(v);
    if v.len() == 0 {
        assert(n.credits + credits_read_back(v) == n.credits);
    } else {
        album_credits_fold(n, v.drop_last());
        assert(ls.drop_last() == credits_as_lines(v.drop_last()));
        let before = credits_read_back(v.drop_last());
        let one = (escaped(v.last().0), escaped(v.last().1));
        assert((n.credits + before).push(one) == n.credits + before.push(one));
    }
}

#[verifier::rlimit(80)]
#[verifier::spinoff_prover]
proof fn album_lines_fold(n: AlbumNfoView)
    requires
        tidy_album(n),
    ensures
        album_fold(empty_album(), album_lines(n)) == album_read_back(n),
{
    lower_names();
    album_names_differ();
    let n0 = empty_album();
    let b0 = filled_as_lines("title"@, n.title);
    let l0 = b0;
    let m0 = AlbumNfoView { title: n.title, ..n0 };
    assert(album_fold(n0, b0) == m0) by {
        reveal_with_fuel(album_fold, 2);
        if n.title.len() > 0 {
            assert(b0.drop_last() == Seq::<Line>::empty());
        } else {
            assert(n.title == n0.title);
        }
    }
    let b1 = list_as_lines("artist"@, n.artists);
    let l1 = l0 + b1;
    album_fold_adds(n0, l0, b1);
    let m1 = AlbumNfoView { artists: n.artists, ..m0 };
    album_artists_fold(m0, n.artists);
    assert(m0.artists + n.artists == n.artists);
    let b2 = list_as_lines("albumartist"@, n.album_artists);
    let l2 = l1 + b2;
    album_fold_adds(n0, l1, b2);
    let m2 = AlbumNfoView { album_artists: n.album_artists, ..m1 };
    album_album_artists_fold(m1, n.album_artists);
    assert(m1.album_artists + n.album_artists == n.album_artists);
    let b3 = year_as_lines(n.year);
    let l3 = l2 + b3;
    album_fold_adds(n0, l2, b3);
    let m3 = AlbumNfoView { year: n.year, ..m2 };
    assert(album_fold(m2, b3) == m3) by {
        reveal_with_fuel(album_fold, 2);
        if let Some(y) = n.year {
            year_reads_back(y as nat);
            assert(b3.drop_last() == Seq::<Line>::empty());
        }
    }
    let b4 = list_as_lines("genre"@, n.genres);
    let l4 = l3 + b4;
    album_fold_adds(n0, l3, b4);
    let m4 = AlbumNfoView { genres: n.genres, ..m3 };
    album_genres_fold(m3, n.genres);
    assert(m3.genres + n.genres == n.genres);
    let b5 = list_as_lines("styles"@, n.styles);
    let l5 = l4 + b5;
    album_fold_adds(n0, l4, b5);
    let m5 = AlbumNfoView { styles: n.styles, ..m4 };
    album_styles_fold(m4, n.styles);
    assert(m4.styles + n.styles == n.styles);
    let b6 = list_as_lines("moods"@, n.moods);
    let l6 = l5 + b6;
    album_fold_adds(n0, l5, b6);
    let m6 = AlbumNfoView { moods: n.moods, ..m5 };
    album_moods_fold(m5, n.moods);
    assert(m5.moods + n.moods == n.moods);
    let b7 = filled_as_lines("mbid"@, n.mbid);
    let l7 = l6 + b7;
    album_fold_adds(n0, l6, b7);
    let m7 = AlbumNfoView { mbid: n.mbid, ..m6 };
    assert(album_fold(m6, b7) == m7) by {
        reveal_with_fuel(album_fold, 2);
        if n.mbid.len() > 0 {
            assert(b7.drop_last() == Seq::<Line>::empty());
        } else {
            assert(n.mbid == m6.mbid);
        }
    }
    let b8 = filled_as_lines("releasedate"@, n.releasedate);
    let l8 = l7 + b8;
    album_fold_adds(n0, l7, b8);
    let m8 = AlbumNfoView { releasedate: n.releasedate, ..m7 };
    assert(album_fold(m7, b8) == m8) by {
        reveal_with_fuel(album_fold, 2);
        if n.releasedate.len() > 0 {
            assert(b8.drop_last() == Seq::<Line>::empty());
        } else {
            assert(n.releasedate == m7.releasedate);
        }
    }
    let b9 = filled_as_lines("description"@, n.description);
    let l9 = l8 + b9;
    album_fold_adds(n0, l8, b9);
    let m9 = AlbumNfoView { description: n.description, ..m8 };
    assert(album_fold(m8, b9) == m9) by {
        reveal_with_fuel(album_fold, 2);
        if n.description.len() > 0 {
            assert(b9.drop_last() == Seq::<Line>::empty());
        } else {
            assert(n.description == m8.description);
        }
    }
    let b10 = bpm_as_lines(n.bpm);
    let l10 = l9 + b10;
    album_fold_adds(n0, l9, b10);
    let m10 = AlbumNfoView { bpm: n.bpm, ..m9 };
    assert(album_fold(m9, b10) == m10) by {
        reveal_with_fuel(album_fold, 2);
        if let Some(b) = n.bpm {
            assert(b10.drop_last() == Seq::<Line>::empty());
        }
    }
    let b11 = filled_as_lines("key"@, n.key);
    let l11 = l10 + b11;
    album_fold_adds(n0, l10, b11);
    let m11 = AlbumNfoView { key: n.key, ..m10 };
    assert(album_fold(m10, b11) == m11) by {
        reveal_with_fuel(album_fold, 2);
        if n.key.len() > 0 {
            assert(b11.drop_last() == Seq::<Line>::empty());
        } else {
            assert(n.key == m10.key);
        }
    }
    let b12 = list_as_lines("chord"@, n.chords);
    let l12 = l11 + b12;
    album_fold_adds(n0, l11, b12);
    let m12 = AlbumNfoView { chords: n.chords, ..m11 };
    album_chords_fold(m11, n.chords);
    assert(m11.chords + n.chords == n.chords);
    let b13 = list_as_lines("structure"@, n.structure);
    let l13 = l12 + b13;
    album_fold_adds(n0, l12, b13);
    let m13 = AlbumNfoView { structure: n.structure, ..m12 };
    album_structure_fold(m12, n.structure);
    assert(m12.structure + n.structure == n.structure);
    let b14 = credits_as_lines(n.credits);
    let l14 = l13 + b14;
    album_fold_adds(n0, l13, b14);
    album_credits_fold(m13, n.credits);
    assert(m13.credits + credits_read_back(n.credits) == credits_read_back(n.credits));
    assert(l14 == album_lines(n));
}

proof fn artist_lines_fold(n: ArtistNfoView)
    requires
        tidy_artist(n),
    ensures
        artist_fold(empty_artist(), artist_lines(n)) == artist_read_back(n),
{
    lower_names();
    artist_names_differ();
    let n0 = empty_artist();
    let b0 = filled_as_lines("name"@, n.name);
    let l0 = b0;
    let m0 = ArtistNfoView { name: n.name, ..n0 };
    assert(artist_fold(n0, b0) == m0) by {
        reveal_with_fuel(artist_fold, 2);
        if n.name.len() > 0 {
            assert(b0.drop_last() == Seq::<Line>::empty());
        } else {
            assert(n.name == n0.name);
        }
    }
    let b1 = list_as_lines("genre"@, n.genres);
    let l1 = l0 + b1;
    artist_fold_adds(n0, l0, b1);
    let m1 = ArtistNfoView { genres: n.genres, ..m0 };
    artist_genres_fold(m0, n.genres);
    assert(m0.genres + n.genres == n.genres);
    let b2 = list_as_lines("styles"@, n.styles);
    let l2 = l1 + b2;
    artist_fold_adds(n0, l1, b2);
    let m2 = ArtistNfoView { styles: n.styles, ..m1 };
    artist_styles_fold(m1, n.styles);
    assert(m1.styles + n.styles == n.styles);
    let b3 = list_as_lines("moods"@, n.moods);
    let l3 = l2 + b3;
    artist_fold_adds(n0, l2, b3);
    let m3 = ArtistNfoView { moods: n.moods, ..m2 };
    artist_moods_fold(m2, n.moods);
    assert(m2.moods + n.moods == n.moods);
    let b4 = filled_as_lines("mbid"@, n.mbid);
    let l4 = l3 + b4;
    artist_fold_adds(n0, l3, b4);
    let m4 = ArtistNfoView { mbid: n.mbid, ..m3 };
    assert(artist_fold(m3, b4) == m4) by {
        reveal_with_fuel(artist_fold, 2);
        if n.mbid.len() > 0 {
            assert(b4.drop_last() == Seq::<Line>::empty());
        } else {
            assert(n.mbid == m3.mbid);
        }
    }
    let b5 = filled_as_lines("biography"@, n.biography);
    let l5 = l4 + b5;
    artist_fold_adds(n0, l4, b5);
    let m5 = ArtistNfoView { biography: n.biography, ..m4 };
    assert(artist_fold(m4, b5) == m5) by {
        reveal_with_fuel(artist_fold, 2);
        if n.biography.len() > 0 {
            assert(b5.drop_last() == Seq::<Line>::empty());
        } else {
            assert(n.biography == m4.biography);
        }
    }
    let b6 = list_as_lines("similarartist"@, n.similar_artists);
    let l6 = l5 + b6;
    artist_fold_adds(n0, l5, b6);
    let m6 = ArtistNfoView { similar_artists: n.similar_artists, ..m5 };
    artist_similar_artists_fold(m5, n.similar_artists);
    assert(m5.similar_artists + n.similar_artists == n.similar_artists);
    assert(l6 == artist_lines(n));
}

} // verus!
