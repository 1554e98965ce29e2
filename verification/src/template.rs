//! Schema templates and file-name sanitizing.
//!
//! A template holds `{placeholder}` and `{placeholder:format}` tokens, e.g.
//! `{track:02} - {title}`. The format is a zero-pad width and counts for numeric fields
//! only. Unknown placeholders render as nothing.
//!
//! Every path component goes through `sanitize_with` before use, so that a metadata value
//! never breaks out of its component and never makes an invalid file name.

use crate::text;
use vstd::prelude::*;

verus! {

/// The values that a template can name. A field that is empty or `None` renders as nothing.
#[derive(Debug, Clone)]
pub struct TemplateFields {
    pub track: Option<u32>,
    pub disc: Option<u32>,
    pub title: String,
    pub artist: String,
    pub album_artist: String,
    pub album: String,
    pub year: Option<u32>,
    pub genre: String,
    /// "Live", "Bootleg" or "": the recording source, so that live tracks are never confused
    /// with studio releases.
    pub recording: String,
    pub mbid: String,
}

/// The mathematical value of the fields.
pub struct FieldsView {
    pub track: Option<u32>,
    pub disc: Option<u32>,
    pub title: Seq<char>,
    pub artist: Seq<char>,
    pub album_artist: Seq<char>,
    pub album: Seq<char>,
    pub year: Option<u32>,
    pub genre: Seq<char>,
    pub recording: Seq<char>,
    pub mbid: Seq<char>,
}

impl View for TemplateFields {
    type V = FieldsView;

    open spec fn view(&self) -> FieldsView {
        FieldsView {
            track: self.track,
            disc: self.disc,
            title: self.title@,
            artist: self.artist@,
            album_artist: self.album_artist@,
            album: self.album@,
            year: self.year,
            genre: self.genre@,
            recording: self.recording@,
            mbid: self.mbid@,
        }
    }
}

impl Default for TemplateFields {
    fn default() -> (r: Self)
        ensures
            r.track is None,
            r.disc is None,
            r.year is None,
            r.title@.len() == 0,
            r.artist@.len() == 0,
            r.album_artist@.len() == 0,
            r.album@.len() == 0,
            r.genre@.len() == 0,
            r.recording@.len() == 0,
            r.mbid@.len() == 0,
    {
        TemplateFields {
            track: None,
            disc: None,
            title: String::new(),
            artist: String::new(),
            album_artist: String::new(),
            album: String::new(),
            year: None,
            genre: String::new(),
            recording: String::new(),
            mbid: String::new(),
        }
    }
}

/// A number as a template value: in decimal, nothing where it is missing.
pub open spec fn number_value(n: Option<u32>) -> Seq<char> {
    match n {
        Some(v) => text::decimal(v as nat),
        None => Seq::empty(),
    }
}

fn number_text(n: Option<u32>) -> (r: String)
    ensures
        r@ == number_value(n),
{
    match n {
        Some(v) => text::format_nat(v as u64),
        None => String::new(),
    }
}

impl FieldsView {
    /// What the placeholder `name` stands for; nothing for an unknown name.
    pub open spec fn value(self, name: Seq<char>) -> Seq<char> {
        if name == "track"@ {
            number_value(self.track)
        } else if name == "disc"@ {
            number_value(self.disc)
        } else if name == "year"@ {
            number_value(self.year)
        } else if name == "title"@ {
            self.title
        } else if name == "artist"@ {
            self.artist
        } else if name == "albumArtist"@ {
            self.album_artist
        } else if name == "album"@ {
            self.album
        } else if name == "genre"@ {
            self.genre
        } else if name == "recording"@ {
            self.recording
        } else if name == "mbid"@ {
            self.mbid
        } else {
            Seq::empty()
        }
    }
}

impl TemplateFields {
    /// The value of a placeholder, `None` where the name is unknown or the value empty.
    pub fn resolve(&self, name: &str) -> (r: Option<String>)
        ensures
            match r {
                Some(v) => v@ == self@.value(name@) && v@.len() > 0,
                None => self@.value(name@).len() == 0,
            },
    {
        let value: String = if text::same(name, "track") {
            number_text(self.track)
        } else if text::same(name, "disc") {
            number_text(self.disc)
        } else if text::same(name, "year") {
            number_text(self.year)
        } else if text::same(name, "title") {
            self.title.clone()
        } else if text::same(name, "artist") {
            self.artist.clone()
        } else if text::same(name, "albumArtist") {
            self.album_artist.clone()
        } else if text::same(name, "album") {
            self.album.clone()
        } else if text::same(name, "genre") {
            self.genre.clone()
        } else if text::same(name, "recording") {
            self.recording.clone()
        } else if text::same(name, "mbid") {
            self.mbid.clone()
        } else {
            String::new()
        };
        if text::length(value.as_str()) == 0 {
            None
        } else {
            Some(value)
        }
    }
}

/// `n` zeros.
pub open spec fn zeros(n: nat) -> Seq<char> {
    Seq::new(n, |i: int| '0')
}

/// `value` without leading minus signs, filled up with zeros on the left to the width that
/// `fmt` gives; `value` itself where `fmt` is no width.
pub open spec fn padded(value: Seq<char>, fmt: Seq<char>) -> Seq<char> {
    match text::parsed_int(fmt, 0, usize::MAX as int) {
        Some(width) => {
            let digits = text::strip_front(value, text::among("-"@));
            if digits.len() >= width {
                digits
            } else {
                zeros((width - digits.len()) as nat) + digits
            }
        },
        None => value,
    }
}

/// Pads an ASCII value with zeros to the width in `fmt`.
fn pad_field(value: &str, fmt: &str) -> (r: String)
    requires
        value.is_ascii(),
    ensures
        r@ == padded(value@, fmt@),
{
    let width: usize = match text::parse_nat(fmt, usize::MAX as u64) {
        Some(w) => w as usize,
        None => {
            return text::copy(value);
        },
    };
    let digits = text::trim_front(value, "-");
    let n: usize = text::length(digits.as_str());
    if n >= width {
        digits
    } else {
        let mut out = String::new();
        let mut i: usize = 0;
        while i < width - n
            invariant
                i <= width - n,
                n < width,
                out@ == zeros(i as nat),
            decreases width - n - i,
        {
            out.push('0');
            i = i + 1;
            assert(out@ == zeros(i as nat));
        }
        out.append(digits.as_str());
        out
    }
}

/// Where the token that starts `s` ends: the first `}`, provided `s` starts with `{` and
/// something stands between the two.
pub open spec fn token_end(s: Seq<char>) -> Option<int> {
    if s.len() > 0 && s[0] == '{' {
        match text::found(s, "}"@) {
            Some(end) => if 1 < end < s.len() {
                Some(end)
            } else {
                None
            },
            None => None,
        }
    } else {
        None
    }
}

/// What a token renders as: the value of the name before the first `:`, padded where the name
/// is that of a number and a format follows.
pub open spec fn token_value(token: Seq<char>, f: FieldsView) -> Seq<char> {
    match text::found(token, ":"@) {
        Some(colon) => {
            let name = token.take(colon);
            let value = f.value(name);
            if value.len() > 0 && (name == "track"@ || name == "disc"@ || name == "year"@) {
                padded(value, token.skip(colon + 1))
            } else {
                value
            }
        },
        None => f.value(token),
    }
}

/// A template with each token replaced by its value.
pub open spec fn rendered(s: Seq<char>, f: FieldsView) -> Seq<char>
    decreases s.len(),
{
    if s.len() == 0 {
        Seq::empty()
    } else {
        match token_end(s) {
            Some(end) => if 0 < end < s.len() {
                token_value(s.subrange(1, end), f) + rendered(s.skip(end + 1), f)
            } else {
                Seq::empty()
            },
            None => seq![s[0]] + rendered(s.skip(1), f),
        }
    }
}

fn token_text(token: &str, f: &TemplateFields) -> (r: String)
    ensures
        r@ == token_value(token@, f@),
{
    match text::find(token, ":") {
        Some(colon) => {
            proof {
                reveal_strlit(":");
                text::find_from_meaning(token@, ":"@, 0);
            }
            let n: usize = text::length(token);
            let name = text::slice(token, 0, colon);
            assert(name@ == token@.take(colon as int));
            let fmt = text::slice(token, colon + 1, n);
            assert(fmt@ == token@.skip(colon + 1));
            match f.resolve(name.as_str()) {
                Some(v) => {
                    let numeric: bool = text::same(name.as_str(), "track") || text::same(
                        name.as_str(),
                        "disc",
                    ) || text::same(name.as_str(), "year");
                    if numeric {
                        proof {
                            number_is_ascii(f@, name@);
                        }
                        pad_field(v.as_str(), fmt.as_str())
                    } else {
                        v
                    }
                },
                None => String::new(),
            }
        },
        None => match f.resolve(token) {
            Some(v) => v,
            None => String::new(),
        },
    }
}

proof fn number_is_ascii(f: FieldsView, name: Seq<char>)
    requires
        name == "track"@ || name == "disc"@ || name == "year"@,
    ensures
        vstd::utf8::is_ascii_chars(f.value(name)),
{
    let n = if name == "track"@ {
        f.track
    } else if name == "disc"@ {
        f.disc
    } else {
        f.year
    };
    if let Some(v) = n {
        text::decimal_reads_back(v as nat);
        assert forall|i: int| 0 <= i < number_value(n).len() implies text::is_digit(
            #[trigger] number_value(n)[i],
        ) by {}
    }
}

/// Where the token that starts at `v[i]` ends, as a position in `v`.
fn find_token_end(v: &Vec<char>, i: usize) -> (r: Option<usize>)
    requires
        i < v@.len(),
    ensures
        match r {
            Some(end) => token_end(v@.skip(i as int)) == Some(end - i) && i + 1 < end < v@.len(),
            None => token_end(v@.skip(i as int)) is None,
        },
{
    if v[i] != '{' {
        return None;
    }
    let mut k: usize = i;
    let ghost rest = v@.skip(i as int);
    proof {
        reveal_strlit("}");
    }
    while k < v.len()
        invariant
            i <= k <= v@.len(),
            i < v@.len(),
            rest == v@.skip(i as int),
            rest[0] == '{',
            "}"@ == seq!['}'],
            text::found(rest, "}"@) == text::find_from(rest, "}"@, k - i),
        decreases v@.len() - k,
    {
        assert(rest.subrange(k - i, k - i + 1) == seq![v@[k as int]]);
        if v[k] == '}' {
            assert(text::stands_at(rest, "}"@, k - i));
            return if k > i + 1 {
                Some(k)
            } else {
                None
            };
        }
        assert(seq![v@[k as int]][0] != seq!['}'][0]);
        k = k + 1;
    }
    None
}

/// Renders one template string with the given fields.
pub fn render(schema: &str, fields: &TemplateFields) -> (r: String)
    ensures
        r@ == rendered(schema@, fields@),
{
    let v = text::chars_of(schema);
    let mut out = String::new();
    let mut i: usize = 0;
    assert(v@.skip(0) == v@);
    while i < v.len()
        invariant
            i <= v@.len(),
            v@ == schema@,
            out@ + rendered(v@.skip(i as int), fields@) == rendered(schema@, fields@),
        decreases v@.len() - i,
    {
        let ghost rest = v@.skip(i as int);
        let ghost before = out@;
        match find_token_end(&v, i) {
            Some(end) => {
                let token = text::text_of(&v, i + 1, end);
                let value = token_text(token.as_str(), fields);
                proof {
                    assert(rest.subrange(1, end - i) == token@);
                    assert(rest.skip(end - i + 1) == v@.skip(end + 1));
                    assert(before + (value@ + rendered(v@.skip(end + 1), fields@)) == (before
                        + value@) + rendered(v@.skip(end + 1), fields@));
                }
                out.append(value.as_str());
                i = end + 1;
            },
            None => {
                proof {
                    assert(rest[0] == v@[i as int]);
                    assert(rest.skip(1) == v@.skip(i + 1));
                    assert(before + (seq![rest[0]] + rendered(v@.skip(i + 1), fields@)) == (
                    before + seq![rest[0]]) + rendered(v@.skip(i + 1), fields@));
                }
                out.push(v[i]);
                i = i + 1;
            },
        }
    }
    assert(v@.skip(i as int) == Seq::<char>::empty());
    out
}

// ---------------------------------------------------------------------------
// Sanitizing

/// How names are sanitized. Both values can be set in the configuration.
#[derive(Debug, Clone, Copy)]
pub struct SanitizeOptions {
    pub illegal_char_replacement: char,
    pub max_name_length: usize,
}

impl Default for SanitizeOptions {
    fn default() -> (r: Self)
        ensures
            r.illegal_char_replacement == '_',
            r.max_name_length == 180,
    {
        SanitizeOptions { illegal_char_replacement: '_', max_name_length: 180 }
    }
}

/// Characters that are illegal in a file or folder name on common systems.
pub open spec fn forbidden(c: char) -> bool {
    c == '\\' || c == '/' || c == ':' || c == '*' || c == '?' || c == '"' || c == '<' || c == '>' || c
        == '|'
}

/// Whether a character is illegal in a file or folder name.
pub fn is_forbidden(c: char) -> (r: bool)
    ensures
        r == forbidden(c),
{
    c == '\\' || c == '/' || c == ':' || c == '*' || c == '?' || c == '"' || c == '<' || c == '>' || c
        == '|'
}

/// The part of a name before its first dot, in upper case.
pub open spec fn device_base(name: Seq<char>) -> Seq<char> {
    text::uppered(text::split_by(name, text::among("."@))[0])
}

/// Whether `base` is `prefix` followed by a number of at most 255.
pub open spec fn numbered(base: Seq<char>, prefix: Seq<char>) -> bool {
    text::begins(base, prefix) && text::parsed_int(base.skip(prefix.len() as int), 0, 255) is Some
}

/// Names that Windows keeps for devices, with or without an extension.
pub open spec fn reserved_windows(name: Seq<char>) -> bool {
    let base = device_base(name);
    ||| base == "CON"@
    ||| base == "PRN"@
    ||| base == "AUX"@
    ||| base == "NUL"@
    ||| numbered(base, "COM"@)
    ||| numbered(base, "LPT"@)
}

fn is_numbered(base: &str, prefix: &str) -> (r: bool)
    ensures
        r == numbered(base@, prefix@),
{
    if !text::starts_with(base, prefix) {
        return false;
    }
    let n: usize = text::length(prefix);
    let tail = text::slice(base, n, text::length(base));
    assert(tail@ == base@.skip(prefix@.len() as int));
    text::parse_nat(tail.as_str(), 255).is_some()
}

/// Whether Windows keeps a name for a device.
pub fn is_reserved_windows(name: &str) -> (r: bool)
    ensures
        r == reserved_windows(name@),
{
    let parts = text::split(name, ".");
    assert(text::views(parts@)[0] == parts@[0]@);
    let base = text::upper(parts[0].as_str());
    let b = base.as_str();
    text::same(b, "CON") || text::same(b, "PRN") || text::same(b, "AUX") || text::same(b, "NUL")
        || is_numbered(b, "COM") || is_numbered(b, "LPT")
}

/// A character of a name: the replacement for an illegal one, a space for a control character.
pub open spec fn clean_char(c: char, replacement: char) -> char {
    if forbidden(c) {
        replacement
    } else if (c as u32) < 32 {
        ' '
    } else {
        c
    }
}

pub open spec fn cleaned(s: Seq<char>, replacement: char) -> Seq<char> {
    Seq::new(s.len(), |i: int| clean_char(s[i], replacement))
}

/// Without trailing dots and spaces.
pub open spec fn bare(s: Seq<char>) -> Seq<char> {
    text::strip_back(s, text::among(". "@))
}

/// `name`, with an underscore before it where it is a device name.
pub open spec fn guarded(name: Seq<char>) -> Seq<char> {
    if reserved_windows(name) {
        seq!['_'] + name
    } else {
        name
    }
}

/// `name` cut to at most `max` characters, again without trailing dots and spaces; "trimmed"
/// where nothing is left of it.
pub open spec fn capped(name: Seq<char>, max: nat) -> Seq<char> {
    if name.len() <= max {
        name
    } else if bare(name.take(max as int)).len() == 0 {
        "trimmed"@
    } else {
        bare(name.take(max as int))
    }
}

/// A text as a single path component: illegal characters replaced, control characters turned
/// to spaces, trailing dots and spaces stripped, device names guarded, the length capped.
/// A text of which nothing is left stays empty.
pub open spec fn sanitized(s: Seq<char>, opts: SanitizeOptions) -> Seq<char> {
    let name = bare(cleaned(s, opts.illegal_char_replacement));
    if name.len() == 0 {
        name
    } else {
        capped(guarded(name), opts.max_name_length as nat)
    }
}

fn clean(s: &str, replacement: char) -> (r: String)
    ensures
        r@ == cleaned(s@, replacement),
{
    let v = text::chars_of(s);
    let mut out = String::new();
    let mut i: usize = 0;
    while i < v.len()
        invariant
            i <= v@.len(),
            v@ == s@,
            out@ == cleaned(s@, replacement).take(i as int),
        decreases v@.len() - i,
    {
        let c = v[i];
        let d: char = if is_forbidden(c) {
            replacement
        } else if (c as u32) < 32 {
            ' '
        } else {
            c
        };
        out.push(d);
        i = i + 1;
        assert(out@ == cleaned(s@, replacement).take(i as int));
    }
    assert(cleaned(s@, replacement).take(i as int) == cleaned(s@, replacement));
    out
}

/// Sanitizes a single path component (a file or folder name).
pub fn sanitize_with(s: &str, opts: &SanitizeOptions) -> (r: String)
    ensures
        r@ == sanitized(s@, *opts),
{
    let clean_name = clean(s, opts.illegal_char_replacement);
    let name = text::trim_back(clean_name.as_str(), ". ");
    if text::length(name.as_str()) == 0 {
        return name;
    }
    let out: String = if is_reserved_windows(name.as_str()) {
        let mut guarded_name = String::new();
        guarded_name.push('_');
        assert(guarded_name@ == seq!['_']);
        guarded_name.append(name.as_str());
        guarded_name
    } else {
        name
    };
    if text::length(out.as_str()) > opts.max_name_length {
        let cut = text::slice(out.as_str(), 0, opts.max_name_length);
        assert(cut@ == out@.take(opts.max_name_length as int));
        let short = text::trim_back(cut.as_str(), ". ");
        if text::length(short.as_str()) == 0 {
            text::copy("trimmed")
        } else {
            short
        }
    } else {
        out
    }
}

/// Sanitizes with the default options.
pub fn sanitize(s: &str) -> (r: String)
    ensures
        r@ == sanitized(s@, (SanitizeOptions { illegal_char_replacement: '_', max_name_length: 180 })),
{
    sanitize_with(s, &SanitizeOptions::default())
}

// ---------------------------------------------------------------------------
// Paths

/// `parts` with `prefix` put before the first of them.
pub open spec fn prefixed(prefix: Seq<char>, parts: Seq<Seq<char>>) -> Seq<Seq<char>> {
    seq![prefix + parts[0]] + parts.skip(1)
}

/// A rendered template, taken apart at the slashes of the template itself. A slash inside a
/// value stays inside its part.
pub open spec fn rendered_parts(s: Seq<char>, f: FieldsView) -> Seq<Seq<char>>
    decreases s.len(),
{
    if s.len() == 0 {
        seq![Seq::<char>::empty()]
    } else {
        match token_end(s) {
            Some(end) => if 0 < end < s.len() {
                prefixed(token_value(s.subrange(1, end), f), rendered_parts(s.skip(end + 1), f))
            } else {
                seq![Seq::<char>::empty()]
            },
            None => if s[0] == '/' {
                seq![Seq::<char>::empty()] + rendered_parts(s.skip(1), f)
            } else {
                prefixed(seq![s[0]], rendered_parts(s.skip(1), f))
            },
        }
    }
}

proof fn rendered_parts_nonempty(s: Seq<char>, f: FieldsView)
    ensures
        rendered_parts(s, f).len() > 0,
    decreases s.len(),
{
    if s.len() > 0 {
        match token_end(s) {
            Some(end) => {
                rendered_parts_nonempty(s.skip(end + 1), f);
            },
            None => {
                rendered_parts_nonempty(s.skip(1), f);
            },
        }
    }
}

/// Renders a template and takes it apart at the slashes of the template.
fn render_parts(schema: &str, fields: &TemplateFields) -> (r: Vec<String>)
    ensures
        text::views(r@) == rendered_parts(schema@, fields@),
{
    let v = text::chars_of(schema);
    let mut out: Vec<String> = Vec::new();
    let mut cur = String::new();
    let mut i: usize = 0;
    proof {
        assert(v@.skip(0) == v@);
        rendered_parts_nonempty(v@, fields@);
        assert(text::views(out@) + prefixed(cur@, rendered_parts(v@, fields@)) == rendered_parts(
            v@,
            fields@,
        )) by {
            let parts = rendered_parts(v@, fields@);
            assert(Seq::<char>::empty() + parts[0] == parts[0]);
        }
    }
    while i < v.len()
        invariant
            i <= v@.len(),
            v@ == schema@,
            text::views(out@) + prefixed(cur@, rendered_parts(v@.skip(i as int), fields@))
                == rendered_parts(schema@, fields@),
        decreases v@.len() - i,
    {
        let ghost rest = v@.skip(i as int);
        let ghost done = text::views(out@);
        let ghost before = cur@;
        match find_token_end(&v, i) {
            Some(end) => {
                let token = text::text_of(&v, i + 1, end);
                let value = token_text(token.as_str(), fields);
                proof {
                    assert(rest.subrange(1, end - i) == token@);
                    assert(rest.skip(end - i + 1) == v@.skip(end + 1));
                    let parts = rendered_parts(v@.skip(end + 1), fields@);
                    rendered_parts_nonempty(v@.skip(end + 1), fields@);
                    assert(before + (value@ + parts[0]) == (before + value@) + parts[0]);
                    assert(prefixed(value@, parts).skip(1) == parts.skip(1));
                }
                cur.append(value.as_str());
                i = end + 1;
            },
            None => {
                proof {
                    assert(rest[0] == v@[i as int]);
                    assert(rest.skip(1) == v@.skip(i + 1));
                    rendered_parts_nonempty(v@.skip(i + 1), fields@);
                }
                let ghost parts = rendered_parts(v@.skip(i + 1), fields@);
                if v[i] == '/' {
                    proof {
                        let next = seq![Seq::<char>::empty()] + parts;
                        assert(before + Seq::<char>::empty() == before);
                        assert(next.skip(1) == parts);
                        assert(Seq::<char>::empty() + parts[0] == parts[0]);
                        assert(prefixed(Seq::empty(), parts) == parts);
                        text::views_push(out@, cur);
                        assert(done + prefixed(before, next) == done.push(before) + parts);
                    }
                    out.push(cur);
                    cur = String::new();
                } else {
                    proof {
                        let piece = seq![rest[0]];
                        assert(before + (piece + parts[0]) == (before + piece) + parts[0]);
                        assert(prefixed(piece, parts).skip(1) == parts.skip(1));
                    }
                    cur.push(v[i]);
                    assert(cur@ =~= before + seq![rest[0]]);
                }
                i = i + 1;
            },
        }
    }
    proof {
        assert(v@.skip(i as int) == Seq::<char>::empty());
        let last = seq![Seq::<char>::empty()];
        assert(rendered_parts(v@.skip(i as int), fields@) == last);
        assert(cur@ + Seq::<char>::empty() == cur@);
        assert(prefixed(cur@, last) == seq![cur@]);
        text::views_push(out@, cur);
        assert(text::views(out@) + seq![cur@] == text::views(out@).push(cur@));
    }
    out.push(cur);
    out
}

/// The parts, each sanitized, without those of which nothing is left.
pub open spec fn components(parts: Seq<Seq<char>>, opts: SanitizeOptions) -> Seq<Seq<char>>
    decreases parts.len(),
{
    if parts.len() == 0 {
        Seq::empty()
    } else {
        let before = components(parts.drop_last(), opts);
        let name = sanitized(parts.last(), opts);
        if name.len() == 0 {
            before
        } else {
            before.push(name)
        }
    }
}

/// The folder path of a schema.
pub open spec fn folder_path(
    schema: Seq<char>,
    f: FieldsView,
    opts: SanitizeOptions,
) -> Seq<char> {
    text::joined(components(rendered_parts(schema, f), opts), "/"@)
}

/// Splits a folder schema into sanitized components and joins them with `/`. The result is
/// empty where no component is left.
pub fn render_folder_path(schema: &str, fields: &TemplateFields, opts: &SanitizeOptions) -> (r:
    String)
    ensures
        r@ == folder_path(schema@, fields@, *opts),
{
    let parts = render_parts(schema, fields);
    let mut names: Vec<String> = Vec::new();
    let mut i: usize = 0;
    while i < parts.len()
        invariant
            i <= parts@.len(),
            text::views(names@) == components(text::views(parts@).take(i as int), *opts),
        decreases parts@.len() - i,
    {
        proof {
            assert(text::views(parts@).take(i + 1).drop_last() == text::views(parts@).take(i as int));
            assert(text::views(parts@).take(i + 1).last() == parts@[i as int]@);
        }
        let name = sanitize_with(parts[i].as_str(), opts);
        if text::length(name.as_str()) > 0 {
            proof {
                text::views_push(names@, name);
            }
            names.push(name);
        }
        i = i + 1;
    }
    assert(text::views(parts@).take(i as int) == text::views(parts@));
    text::join(&names, "/")
}

/// The file name of a schema, without extension.
pub open spec fn file_name(schema: Seq<char>, f: FieldsView, opts: SanitizeOptions) -> Seq<
    char,
> {
    let name = sanitized(rendered(schema, f), opts);
    if name.len() == 0 {
        "_untitled"@
    } else {
        name
    }
}

/// Renders a file name (without extension) and sanitizes it.
pub fn render_file_name(schema: &str, fields: &TemplateFields, opts: &SanitizeOptions) -> (r:
    String)
    ensures
        r@ == file_name(schema@, fields@, *opts),
{
    let full = render(schema, fields);
    let name = sanitize_with(full.as_str(), opts);
    if text::length(name.as_str()) == 0 {
        text::copy("_untitled")
    } else {
        name
    }
}

// ---------------------------------------------------------------------------
// Lidarr naming formats

/// A Lidarr naming format in the syntax of this module: one token after the other replaced.
pub open spec fn translated(fmt: Seq<char>) -> Seq<char> {
    let s = text::replaced(fmt, "{Track Title With Artist}"@, "{artist} - {title}"@);
    let s = text::replaced(s, "{track total:00}"@, "{trackTotal}"@);
    let s = text::replaced(s, "{track total}"@, "{trackTotal}"@);
    let s = text::replaced(s, "{medium total:00}"@, "{discTotal}"@);
    let s = text::replaced(s, "{medium total}"@, "{discTotal}"@);
    let s = text::replaced(s, "{track:000}"@, "{track:03}"@);
    let s = text::replaced(s, "{track:00}"@, "{track:02}"@);
    let s = text::replaced(s, "{medium:00}"@, "{disc:02}"@);
    let s = text::replaced(s, "{Medium Format}"@, "{disc}"@);
    let s = text::replaced(s, "{medium}"@, "{disc}"@);
    let s = text::replaced(s, "{Track Title}"@, "{title}"@);
    let s = text::replaced(s, "{Recording Title}"@, "{title}"@);
    let s = text::replaced(s, "{Album Title}"@, "{album}"@);
    let s = text::replaced(s, "{Release Year}"@, "{year}"@);
    let s = text::replaced(s, "{Release Date}"@, "{year}"@);
    let s = text::replaced(s, "{Album Artist Name}"@, "{albumArtist}"@);
    let s = text::replaced(s, "{Artist Name}"@, "{albumArtist}"@);
    let s = text::replaced(s, "{Artists}"@, "{artist}"@);
    let s = text::replaced(s, "{Artist Disambiguation}"@, ""@);
    let s = text::replaced(s, "{Album Disambiguation}"@, ""@);
    let s = text::replaced(s, "{Label}"@, ""@);
    let s = text::replaced(s, "{Catalog Number}"@, ""@);
    let s = text::replaced(s, "{Track Title First Character}"@, ""@);
    s
}

/// Translates a Lidarr naming format. Tokens that are not known here stay in place; the
/// renderer drops them.
pub fn translate_lidarr_format(fmt: &str) -> (r: String)
    ensures
        r@ == translated(fmt@),
{
    let s = text::replace(fmt, "{Track Title With Artist}", "{artist} - {title}");
    let s = text::replace(s.as_str(), "{track total:00}", "{trackTotal}");
    let s = text::replace(s.as_str(), "{track total}", "{trackTotal}");
    let s = text::replace(s.as_str(), "{medium total:00}", "{discTotal}");
    let s = text::replace(s.as_str(), "{medium total}", "{discTotal}");
    let s = text::replace(s.as_str(), "{track:000}", "{track:03}");
    let s = text::replace(s.as_str(), "{track:00}", "{track:02}");
    let s = text::replace(s.as_str(), "{medium:00}", "{disc:02}");
    let s = text::replace(s.as_str(), "{Medium Format}", "{disc}");
    let s = text::replace(s.as_str(), "{medium}", "{disc}");
    let s = text::replace(s.as_str(), "{Track Title}", "{title}");
    let s = text::replace(s.as_str(), "{Recording Title}", "{title}");
    let s = text::replace(s.as_str(), "{Album Title}", "{album}");
    let s = text::replace(s.as_str(), "{Release Year}", "{year}");
    let s = text::replace(s.as_str(), "{Release Date}", "{year}");
    let s = text::replace(s.as_str(), "{Album Artist Name}", "{albumArtist}");
    let s = text::replace(s.as_str(), "{Artist Name}", "{albumArtist}");
    let s = text::replace(s.as_str(), "{Artists}", "{artist}");
    let s = text::replace(s.as_str(), "{Artist Disambiguation}", "");
    let s = text::replace(s.as_str(), "{Album Disambiguation}", "");
    let s = text::replace(s.as_str(), "{Label}", "");
    let s = text::replace(s.as_str(), "{Catalog Number}", "");
    let s = text::replace(s.as_str(), "{Track Title First Character}", "");
    s
}

// ---------------------------------------------------------------------------
// Laws

/// A replacement character that may itself stand in a name.
pub open spec fn legal_replacement(opts: SanitizeOptions) -> bool {
    !forbidden(opts.illegal_char_replacement) && opts.illegal_char_replacement as u32 >= 32
}

/// A name that no common system refuses for its characters.
pub open spec fn legal_name(name: Seq<char>) -> bool {
    &&& forall|i: int|
        0 <= i < name.len() ==> !forbidden(#[trigger] name[i]) && name[i] as u32 >= 32
    &&& name.len() > 0 ==> name.last() != '.' && name.last() != ' '
}

proof fn bare_is_prefix(s: Seq<char>)
    ensures
        bare(s).len() <= s.len(),
        bare(s) == s.take(bare(s).len() as int),
        bare(s).len() > 0 ==> bare(s).last() != '.' && bare(s).last() != ' ',
{
    reveal_strlit(". ");
    text::strip_back_is_prefix(s, text::among(". "@));
    assert(". "@[0] == '.' && ". "@[1] == ' ');
}

/// A sanitized text is a legal name: no separator, no other illegal or control character, no
/// dot or space at its end; in particular it is never `.` or `..`.
pub proof fn sanitized_is_legal(s: Seq<char>, opts: SanitizeOptions)
    requires
        legal_replacement(opts),
    ensures
        legal_name(sanitized(s, opts)),
        sanitized(s, opts) != "."@,
        sanitized(s, opts) != ".."@,
{
    let c = cleaned(s, opts.illegal_char_replacement);
    let name = bare(c);
    bare_is_prefix(c);
    let g = guarded(name);
    if name.len() > 0 {
        assert(g.last() == name.last());
        let cut = g.take(opts.max_name_length as int);
        if g.len() > opts.max_name_length {
            bare_is_prefix(cut);
        }
    }
    reveal_strlit("trimmed");
    reveal_strlit(".");
    reveal_strlit("..");
    let out = sanitized(s, opts);
    assert(legal_name("trimmed"@));
    assert("."@.last() == '.' && ".."@.last() == '.');
    assert(legal_name(out)) by {
        assert forall|i: int| 0 <= i < out.len() implies !forbidden(#[trigger] out[i])
            && out[i] as u32 >= 32 by {
            if out != "trimmed"@ {
                assert(out[i] == '_' || exists|k: int| 0 <= k < c.len() && out[i] == c[k]);
            }
        }
    }
}

/// A sanitized text is at most as long as the options allow, or else the word that stands for a
/// name of which nothing was left.
pub proof fn sanitized_is_short(s: Seq<char>, opts: SanitizeOptions)
    ensures
        sanitized(s, opts).len() <= opts.max_name_length || sanitized(s, opts) == "trimmed"@,
{
    let name = bare(cleaned(s, opts.illegal_char_replacement));
    let g = guarded(name);
    if name.len() > 0 && g.len() > opts.max_name_length {
        bare_is_prefix(g.take(opts.max_name_length as int));
    }
}

/// A name with an underscore in front is no device name.
proof fn underscore_is_not_reserved(name: Seq<char>)
    ensures
        !reserved_windows(seq!['_'] + name),
{
    let s = seq!['_'] + name;
    reveal_strlit(".");
    reveal_strlit("CON");
    reveal_strlit("PRN");
    reveal_strlit("AUX");
    reveal_strlit("NUL");
    reveal_strlit("COM");
    reveal_strlit("LPT");
    assert(s[0] == '_');
    assert("."@[0] == '.');
    text::first_piece_starts(s, text::among("."@));
    let base = device_base(s);
    assert(base[0] == '_');
    assert("CON"@[0] == 'C' && "PRN"@[0] == 'P' && "AUX"@[0] == 'A' && "NUL"@[0] == 'N');
    if text::begins(base, "COM"@) {
        assert(base.subrange(0, 3)[0] == "COM"@[0]);
    }
    if text::begins(base, "LPT"@) {
        assert(base.subrange(0, 3)[0] == "LPT"@[0]);
    }
}

/// A sanitized text that was not cut is no device name.
pub proof fn sanitized_is_not_reserved(s: Seq<char>, opts: SanitizeOptions)
    requires
        guarded(bare(cleaned(s, opts.illegal_char_replacement))).len() <= opts.max_name_length,
        sanitized(s, opts).len() > 0,
    ensures
        !reserved_windows(sanitized(s, opts)),
{
    underscore_is_not_reserved(bare(cleaned(s, opts.illegal_char_replacement)));
}

/// Sanitizing a sanitized text changes nothing, unless cutting made a device name of it or left
/// the word that stands for a lost name although that is longer than allowed.
pub proof fn sanitizing_twice_is_sanitizing_once(s: Seq<char>, opts: SanitizeOptions)
    requires
        legal_replacement(opts),
        !reserved_windows(sanitized(s, opts)),
        sanitized(s, opts).len() <= opts.max_name_length,
    ensures
        sanitized(sanitized(s, opts), opts) == sanitized(s, opts),
{
    let out = sanitized(s, opts);
    sanitized_is_legal(s, opts);
    assert(cleaned(out, opts.illegal_char_replacement) =~= out) by {
        assert forall|i: int| 0 <= i < out.len() implies clean_char(
            out[i],
            opts.illegal_char_replacement,
        ) == out[i] by {
            assert(!forbidden(out[i]));
        }
    }
    assert(bare(out) == out) by {
        bare_is_prefix(out);
        reveal_strlit(". ");
        text::strip_back_is_prefix(out, text::among(". "@));
        let n = bare(out).len() as int;
        if n < out.len() {
            assert(text::among(". "@)(out[out.len() - 1]));
        }
        assert(out.take(out.len() as int) == out);
    }
}

/// Each component of a folder path is a nonempty legal name, and there are at most as many as
/// the schema has parts.
pub proof fn components_are_legal(parts: Seq<Seq<char>>, opts: SanitizeOptions)
    requires
        legal_replacement(opts),
    ensures
        components(parts, opts).len() <= parts.len(),
        forall|i: int|
            0 <= i < components(parts, opts).len() ==> {
                &&& #[trigger] components(parts, opts)[i].len() > 0
                &&& legal_name(components(parts, opts)[i])
                &&& components(parts, opts)[i] != "."@
                &&& components(parts, opts)[i] != ".."@
            },
    decreases parts.len(),
{
    if parts.len() > 0 {
        components_are_legal(parts.drop_last(), opts);
        sanitized_is_legal(parts.last(), opts);
        let before = components(parts.drop_last(), opts);
        assert forall|i: int| 0 <= i < components(parts, opts).len() implies {
            &&& #[trigger] components(parts, opts)[i].len() > 0
            &&& legal_name(components(parts, opts)[i])
            &&& components(parts, opts)[i] != "."@
            &&& components(parts, opts)[i] != ".."@
        } by {
            if i < before.len() {
                assert(components(parts, opts)[i] == before[i]);
            }
        }
    }
}

/// The number of slashes in a text.
pub open spec fn slashes(s: Seq<char>) -> nat
    decreases s.len(),
{
    if s.len() == 0 {
        0
    } else {
        slashes(s.skip(1)) + if s[0] == '/' {
            1nat
        } else {
            0nat
        }
    }
}

proof fn slashes_of_suffix(s: Seq<char>, n: int)
    requires
        0 <= n <= s.len(),
    ensures
        slashes(s.skip(n)) <= slashes(s),
    decreases n,
{
    if n > 0 {
        slashes_of_suffix(s.skip(1), n - 1);
        assert(s.skip(1).skip(n - 1) == s.skip(n));
    } else {
        assert(s.skip(0) == s);
    }
}

proof fn parts_follow_slashes(s: Seq<char>, f: FieldsView)
    ensures
        0 < rendered_parts(s, f).len() <= slashes(s) + 1,
    decreases s.len(),
{
    if s.len() > 0 {
        match token_end(s) {
            Some(end) => {
                parts_follow_slashes(s.skip(end + 1), f);
                slashes_of_suffix(s, end + 1);
            },
            None => {
                parts_follow_slashes(s.skip(1), f);
            },
        }
    }
}

/// A metadata value never breaks out of its component: whatever the fields hold, a folder path
/// has at most one component more than its schema has slashes, each of them a legal name, and
/// it splits at its slashes into exactly these components.
pub proof fn values_stay_in_their_component(
    schema: Seq<char>,
    f: FieldsView,
    opts: SanitizeOptions,
)
    requires
        legal_replacement(opts),
    ensures
        ({
            let names = components(rendered_parts(schema, f), opts);
            &&& names.len() <= slashes(schema) + 1
            &&& names.len() > 0 ==> text::split_by(folder_path(schema, f, opts), text::among("/"@))
                == names
            &&& names.len() == 0 ==> folder_path(schema, f, opts).len() == 0
            &&& forall|i: int|
                0 <= i < names.len() ==> #[trigger] names[i].len() > 0 && legal_name(names[i])
        }),
{
    let parts = rendered_parts(schema, f);
    let names = components(parts, opts);
    parts_follow_slashes(schema, f);
    components_are_legal(parts, opts);
    reveal_strlit("/");
    assert("/"@ == seq!['/']);
    if names.len() > 0 {
        assert("/"@[0] == '/');
        assert forall|i: int, j: int|
            0 <= i < names.len() && 0 <= j < names[i].len() implies !text::among("/"@)(
            #[trigger] names[i][j],
        ) by {
            assert(legal_name(names[i]));
            assert(!forbidden(names[i][j]));
        }
        text::join_then_split(names, '/', text::among("/"@));
    }
}

/// A rendered file name is never empty, and with a legal replacement it is a legal name.
pub proof fn file_name_is_legal(schema: Seq<char>, f: FieldsView, opts: SanitizeOptions)
    requires
        legal_replacement(opts),
    ensures
        file_name(schema, f, opts).len() > 0,
        legal_name(file_name(schema, f, opts)),
{
    sanitized_is_legal(rendered(schema, f), opts);
    reveal_strlit("_untitled");
}

/// An unknown placeholder renders as nothing.
pub proof fn unknown_placeholder_is_dropped(token: Seq<char>, f: FieldsView)
    requires
        !text::has(token, ":"@),
        !["track"@, "disc"@, "year"@, "title"@, "artist"@, "albumArtist"@, "album"@, "genre"@,
            "recording"@, "mbid"@]@.contains(token),
    ensures
        token_value(token, f).len() == 0,
{
    text::has_is_found(token, ":"@);
    let known = ["track"@, "disc"@, "year"@, "title"@, "artist"@, "albumArtist"@, "album"@, "genre"@,
        "recording"@, "mbid"@]@;
    assert(known[0] == "track"@ && known[1] == "disc"@ && known[2] == "year"@ && known[3]
        == "title"@ && known[4] == "artist"@ && known[5] == "albumArtist"@ && known[6] == "album"@
        && known[7] == "genre"@ && known[8] == "recording"@ && known[9] == "mbid"@);
}

/// A schema does not ask for the recording.
pub open spec fn without_recording(s: Seq<char>) -> bool {
    !text::has(s, "{recording"@)
}

proof fn rest_is_without_recording(s: Seq<char>, k: int)
    requires
        without_recording(s),
        0 <= k <= s.len(),
    ensures
        without_recording(s.skip(k)),
{
    let pat = "{recording"@;
    if text::has(s.skip(k), pat) {
        let i = choose|i: int| text::stands_at(s.skip(k), pat, i);
        assert(s.skip(k).subrange(i, i + pat.len()) =~= s.subrange(i + k, i + k + pat.len()));
        assert(text::stands_at(s, pat, i + k));
    }
}

/// A schema that does not ask for the recording renders the same for every recording.
pub proof fn recording_does_not_matter(s: Seq<char>, f: FieldsView, g: FieldsView)
    requires
        without_recording(s),
        g == (FieldsView { recording: g.recording, ..f }),
    ensures
        rendered_parts(s, f) == rendered_parts(s, g),
    decreases s.len(),
{
    if s.len() > 0 {
        match token_end(s) {
            Some(end) => {
                text::find_from_meaning(s, "}"@, 0);
                let token = s.subrange(1, end);
                let name = match text::found(token, ":"@) {
                    Some(colon) => token.take(colon),
                    None => token,
                };
                reveal_strlit("{recording");
                reveal_strlit("recording");
                text::find_from_meaning(token, ":"@, 0);
                if name == "recording"@ {
                    assert(name.len() == 9);
                    assert(token.len() >= 9);
                    assert(token.len() == end - 1);
                    assert forall|k: int| 0 <= k < 9 implies #[trigger] name[k] == s[k + 1] by {
                        assert(name[k] == token[k]);
                    }
                    assert(s.subrange(0, 10) =~= "{recording"@) by {
                        assert forall|i: int| 0 <= i < 10 implies s.subrange(0, 10)[i]
                            == "{recording"@[i] by {
                            if i > 0 {
                                assert(name[i - 1] == s[i]);
                                assert("{recording"@[i] == "recording"@[i - 1]);
                            }
                        }
                    }
                    assert(text::stands_at(s, "{recording"@, 0));
                }
                assert(token_value(token, f) == token_value(token, g));
                rest_is_without_recording(s, end + 1);
                recording_does_not_matter(s.skip(end + 1), f, g);
            },
            None => {
                rest_is_without_recording(s, 1);
                recording_does_not_matter(s.skip(1), f, g);
            },
        }
    }
}

/// A character that stands in the schema itself, outside every token.
pub open spec fn literal(s: Seq<char>, c: char) -> bool
    decreases s.len(),
{
    s.len() > 0 && match token_end(s) {
        Some(end) => 0 < end < s.len() && literal(s.skip(end + 1), c),
        None => s[0] == c || literal(s.skip(1), c),
    }
}

/// A character that sanitizing keeps wherever it stands.
pub open spec fn plain(c: char) -> bool {
    !forbidden(c) && c as u32 >= 32 && c != '.' && c != ' '
}

/// A character of the schema itself stands in one of the parts.
proof fn literal_stays(s: Seq<char>, f: FieldsView, c: char) -> (at: (int, int))
    requires
        literal(s, c),
        plain(c),
    ensures
        0 <= at.0 < rendered_parts(s, f).len(),
        0 <= at.1 < rendered_parts(s, f)[at.0].len(),
        rendered_parts(s, f)[at.0][at.1] == c,
    decreases s.len(),
{
    let parts = rendered_parts(s, f);
    match token_end(s) {
        Some(end) => {
            let v = token_value(s.subrange(1, end), f);
            let (k, i) = literal_stays(s.skip(end + 1), f, c);
            if k == 0 {
                assert(parts[0][v.len() + i] == c);
                (0, v.len() + i)
            } else {
                assert(parts[k] == rendered_parts(s.skip(end + 1), f)[k]);
                (k, i)
            }
        },
        None => {
            rendered_parts_nonempty(s.skip(1), f);
            if s[0] == c {
                (0, 0)
            } else {
                let (k, i) = literal_stays(s.skip(1), f, c);
                if s[0] == '/' {
                    (k + 1, i)
                } else if k == 0 {
                    (0, i + 1)
                } else {
                    assert(parts[k] == rendered_parts(s.skip(1), f)[k]);
                    (k, i)
                }
            }
        },
    }
}

/// A text in which such a character stands is not sanitized away.
pub proof fn plain_char_is_kept(s: Seq<char>, opts: SanitizeOptions, i: int)
    requires
        0 <= i < s.len(),
        plain(s[i]),
    ensures
        sanitized(s, opts).len() > 0,
{
    reveal_strlit(". ");
    reveal_strlit("trimmed");
    let c = cleaned(s, opts.illegal_char_replacement);
    text::strip_back_is_prefix(c, text::among(". "@));
    assert(c[i] == s[i]);
    assert(bare(c).len() > i) by {
        if bare(c).len() <= i {
            assert(text::among(". "@)(c[i]));
        }
    }
}

proof fn named_component(parts: Seq<Seq<char>>, opts: SanitizeOptions, k: int)
    requires
        0 <= k < parts.len(),
        sanitized(parts[k], opts).len() > 0,
    ensures
        text::joined(components(parts, opts), "/"@).len() > 0,
        components(parts, opts).len() > 0,
    decreases parts.len(),
{
    if k < parts.len() - 1 {
        named_component(parts.drop_last(), opts, k);
    }
    let all = components(parts, opts);
    assert(all.drop_last() == components(parts.drop_last(), opts) || all == components(
        parts.drop_last(),
        opts,
    ));
}

/// A schema in which a character stands that sanitizing keeps always gives a folder, whatever is
/// filled in.
pub proof fn named_folders_are_never_empty(
    schema: Seq<char>,
    f: FieldsView,
    opts: SanitizeOptions,
    c: char,
)
    requires
        literal(schema, c),
        plain(c),
    ensures
        folder_path(schema, f, opts).len() > 0,
{
    let (k, i) = literal_stays(schema, f, c);
    plain_char_is_kept(rendered_parts(schema, f)[k], opts, i);
    named_component(rendered_parts(schema, f), opts, k);
}

} // verus!
