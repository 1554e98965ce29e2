//! Which folder an album goes to.

use crate::config::Config;
use crate::laws::names;
use crate::laws::rendering;
use crate::organizer;
use crate::organizer::{Bucket, InfoView};
use crate::tags::Recording;
use crate::template;
use crate::template::{FieldsView, SanitizeOptions};
use crate::text;
use vstd::prelude::*;

verus! {

/// The name of a folder that a setting gives: it stands for itself.
pub open spec fn folder_word(s: Seq<char>) -> bool {
    !s.contains('{') && !s.contains('/')
}

/// An album with its year, as a folder is named after it.
pub open spec fn dated(album: Seq<char>, year: Option<u32>) -> Seq<char> {
    album + seq![' ', '('] + (match year {
        Some(y) => text::decimal(y as nat),
        None => Seq::empty(),
    }) + seq![')']
}

/// What stands behind the folder of a live album or a bootleg.
pub open spec fn mark(r: Recording) -> Seq<char> {
    match r {
        Recording::Live => seq![' ', '(', 'L', 'i', 'v', 'e', ')'],
        Recording::Bootleg => seq![' ', '(', 'B', 'o', 'o', 't', 'l', 'e', 'g', ')'],
        _ => Seq::empty(),
    }
}

/// The title of a single: that of its album, or else of its first track.
pub open spec fn single_title(album: Seq<char>, first_title: Seq<char>) -> Seq<char> {
    if album.len() > 0 {
        album
    } else {
        first_title
    }
}

pub proof fn marks_are_suffixes(r: Recording)
    ensures
        organizer::recording_suffix(r) == mark(r),
{
    reveal_strlit(" (");
    reveal_strlit(")");
    reveal_strlit("Live");
    reveal_strlit("Bootleg");
    assert(" ("@ + "Live"@ + ")"@ =~= mark(Recording::Live));
    assert(" ("@ + "Bootleg"@ + ")"@ =~= mark(Recording::Bootleg));
}

proof fn token_words()
    ensures
        rendering::token_name("album"@),
        rendering::token_name("year"@),
        rendering::token_name("title"@),
        rendering::token_name("albumArtist"@),
{
    reveal_strlit("album");
    reveal_strlit("year");
    reveal_strlit("title");
    reveal_strlit("albumArtist");
}

/// The parts of `{album} ({year})`.
proof fn dated_parts(f: FieldsView)
    ensures
        template::rendered_parts("{album} ({year})"@, f) == seq![dated(f.album, f.year)],
        template::rendered_parts("/{album} ({year})"@, f) == seq![
            Seq::<char>::empty(),
            dated(f.album, f.year),
        ],
{
    token_words();
    rendering::placeholders_stand_for_their_fields(f);
    reveal_strlit("album");
    reveal_strlit("year");
    reveal_strlit("{album} ({year})");
    reveal_strlit("/{album} ({year})");
    let none = Seq::<char>::empty();
    let r3 = seq![')'];
    let r2 = rendering::token("year"@) + r3;
    let r1 = seq![' ', '('] + r2;
    let r0 = rendering::token("album"@) + r1;
    assert("{album} ({year})"@ =~= r0);
    assert("/{album} ({year})"@ =~= seq!['/'] + r0);
    assert(r3 =~= seq![')'] + none);
    rendering::plain_text_stays_in_its_part(seq![')'], none, f);
    rendering::tokens_stay_in_their_part("year"@, r3, f);
    rendering::plain_text_stays_in_its_part(seq![' ', '('], r2, f);
    rendering::tokens_stay_in_their_part("album"@, r1, f);
    rendering::slashes_begin_a_part(r0, f);
    let year = f.value("year"@);
    assert(template::rendered_parts(r3, f) =~= seq![seq![')']]);
    assert(template::rendered_parts(r2, f) =~= seq![year + seq![')']]);
    assert(template::rendered_parts(r1, f) =~= seq![seq![' ', '('] + (year + seq![')'])]);
    if f.year is None {
        assert(year =~= none);
    }
    assert(f.album + (seq![' ', '('] + (year + seq![')'])) =~= dated(f.album, f.year));
    assert(template::rendered_parts(r0, f) =~= seq![dated(f.album, f.year)]);
    assert(seq![none] + seq![dated(f.album, f.year)] =~= seq![none, dated(f.album, f.year)]);
}

/// A folder with an album in it.
proof fn album_in_folder(folder: Seq<char>, f: FieldsView, opts: SanitizeOptions)
    requires
        folder_word(folder),
        template::sanitized(folder, opts).len() > 0,
    ensures
        template::folder_path(folder + "/{album} ({year})"@, f, opts) == template::sanitized(
            folder,
            opts,
        ) + seq!['/'] + template::sanitized(dated(f.album, f.year), opts),
{
    let rest = "/{album} ({year})"@;
    dated_parts(f);
    rendering::plain_text_stays_in_its_part(folder, rest, f);
    let name = dated(f.album, f.year);
    assert(folder + Seq::<char>::empty() =~= folder);
    assert(template::rendered_parts(folder + rest, f) =~= seq![folder, name]);
    dated_names_are_kept(f.album, f.year, opts);
    rendering::two_parts_make_a_path(folder + rest, f, opts, folder, name);
}

proof fn dated_names_are_kept(album: Seq<char>, year: Option<u32>, opts: SanitizeOptions)
    ensures
        template::sanitized(dated(album, year), opts).len() > 0,
{
    let name = dated(album, year);
    assert(name[album.len() as int + 1] == '(');
    template::plain_char_is_kept(name, opts, album.len() as int + 1);
}

/// A compilation goes into the folder for various artists, under its own name and year.
pub proof fn compilations_have_folders_of_their_own(
    info: InfoView,
    cfg: Config,
    first_title: Seq<char>,
)
    requires
        folder_word(cfg.various_folder@),
        template::sanitized(cfg.various_folder@, organizer::options(cfg)).len() > 0,
    ensures
        organizer::target_dir(Bucket::Various, info, cfg, first_title) == template::sanitized(
            cfg.various_folder@,
            organizer::options(cfg),
        ) + seq!['/'] + template::sanitized(dated(info.album, info.year), organizer::options(cfg))
            + mark(info.recording),
{
    let f = organizer::fields_of_album(info, first_title);
    album_in_folder(cfg.various_folder@, f, organizer::options(cfg));
    marks_are_suffixes(info.recording);
}

/// A soundtrack goes into the folder for soundtracks, under its own name and year; that folder lies
/// in the one for various artists where the settings say so.
pub proof fn soundtracks_have_folders_of_their_own(
    info: InfoView,
    cfg: Config,
    first_title: Seq<char>,
)
    requires
        folder_word(cfg.soundtrack_folder@),
        template::sanitized(cfg.soundtrack_folder@, organizer::options(cfg)).len() > 0,
    ensures
        ({
            let inner = template::sanitized(cfg.soundtrack_folder@, organizer::options(cfg))
                + seq!['/'] + template::sanitized(
                dated(info.album, info.year),
                organizer::options(cfg),
            ) + mark(info.recording);
            organizer::target_dir(Bucket::Soundtrack, info, cfg, first_title)
                == if cfg.nest_buckets_under_various {
                cfg.various_folder@ + seq!['/'] + inner
            } else {
                inner
            }
        }),
{
    reveal_strlit("/");
    assert("/"@ =~= seq!['/']);
    let f = organizer::fields_of_album(info, first_title);
    album_in_folder(cfg.soundtrack_folder@, f, organizer::options(cfg));
    marks_are_suffixes(info.recording);
    let opts = organizer::options(cfg);
    let (a, b) = (
        template::sanitized(cfg.soundtrack_folder@, opts),
        template::sanitized(dated(info.album, info.year), opts),
    );
    assert(cfg.various_folder@ + seq!['/'] + (a + seq!['/'] + b) + mark(info.recording)
        =~= cfg.various_folder@ + seq!['/'] + (a + seq!['/'] + b + mark(info.recording)));
}

/// A single of a known artist goes into the artist's folder for singles, where singles are kept with
/// their artist.
pub proof fn singles_lie_with_their_artist(info: InfoView, cfg: Config, first_title: Seq<char>)
    requires
        cfg.singles_under_artist,
        text::trimmed(info.album_artist).len() > 0,
        folder_word(cfg.singles_folder@),
        template::sanitized(info.album_artist, organizer::options(cfg)).len() > 0,
        template::sanitized(cfg.singles_folder@, organizer::options(cfg)).len() > 0,
        template::sanitized(single_title(info.album, first_title), organizer::options(cfg)).len() > 0,
    ensures
        organizer::target_dir(Bucket::Singles, info, cfg, first_title) == template::sanitized(
            info.album_artist,
            organizer::options(cfg),
        ) + seq!['/'] + template::sanitized(cfg.singles_folder@, organizer::options(cfg))
            + seq!['/'] + template::sanitized(
            single_title(info.album, first_title),
            organizer::options(cfg),
        ) + mark(info.recording),
{
    token_words();
    marks_are_suffixes(info.recording);
    let f = organizer::fields_of_album(info, first_title);
    let opts = organizer::options(cfg);
    rendering::placeholders_stand_for_their_fields(f);
    reveal_strlit("albumArtist");
    reveal_strlit("title");
    reveal_strlit("{albumArtist}/");
    reveal_strlit("/{title}");
    let none = Seq::<char>::empty();
    let folder = cfg.singles_folder@;
    let title = single_title(info.album, first_title);
    let t = rendering::token("title"@);
    let r2 = seq!['/'] + t;
    let r1 = folder + r2;
    let r0 = seq!['/'] + r1;
    let schema = organizer::schema_of(Bucket::Singles, info, cfg);
    assert(t =~= t + none);
    assert(schema =~= rendering::token("albumArtist"@) + r0);
    rendering::tokens_stay_in_their_part("title"@, none, f);
    rendering::slashes_begin_a_part(t, f);
    rendering::plain_text_stays_in_its_part(folder, r2, f);
    rendering::slashes_begin_a_part(r1, f);
    rendering::tokens_stay_in_their_part("albumArtist"@, r0, f);
    assert(title + none =~= title && folder + none =~= folder && info.album_artist + none
        =~= info.album_artist);
    assert(template::rendered_parts(t, f) =~= seq![title]);
    assert(template::rendered_parts(r2, f) =~= seq![none, title]);
    assert(template::rendered_parts(r1, f) =~= seq![folder, title]);
    assert(template::rendered_parts(r0, f) =~= seq![none, folder, title]);
    assert(template::rendered_parts(schema, f) =~= seq![info.album_artist, folder, title]);
    rendering::three_parts_make_a_path(schema, f, opts, info.album_artist, folder, title);
}

/// Every other single goes into the folder for singles among the various artists, under its artist
/// and its title.
pub proof fn other_singles_lie_together(info: InfoView, cfg: Config, first_title: Seq<char>)
    requires
        !cfg.singles_under_artist || text::trimmed(info.album_artist).len() == 0,
        folder_word(cfg.singles_folder@),
        template::sanitized(cfg.singles_folder@, organizer::options(cfg)).len() > 0,
    ensures
        organizer::target_dir(Bucket::Singles, info, cfg, first_title) == cfg.various_folder@
            + seq!['/'] + template::sanitized(cfg.singles_folder@, organizer::options(cfg))
            + seq!['/'] + template::sanitized(
            info.album_artist + seq![' ', '-', ' '] + single_title(info.album, first_title),
            organizer::options(cfg),
        ) + mark(info.recording),
{
    token_words();
    marks_are_suffixes(info.recording);
    let f = organizer::fields_of_album(info, first_title);
    let opts = organizer::options(cfg);
    rendering::placeholders_stand_for_their_fields(f);
    reveal_strlit("albumArtist");
    reveal_strlit("title");
    reveal_strlit("/");
    reveal_strlit("/{albumArtist} - {title}");
    let none = Seq::<char>::empty();
    let folder = cfg.singles_folder@;
    let title = single_title(info.album, first_title);
    let dash = seq![' ', '-', ' '];
    let name = info.album_artist + dash + title;
    let t = rendering::token("title"@);
    let r2 = dash + t;
    let r1 = rendering::token("albumArtist"@) + r2;
    let r0 = seq!['/'] + r1;
    let schema = organizer::schema_of(Bucket::Singles, info, cfg);
    assert(t =~= t + none);
    assert("/{albumArtist} - {title}"@ =~= r0);
    assert(schema =~= folder + r0);
    rendering::tokens_stay_in_their_part("title"@, none, f);
    rendering::plain_text_stays_in_its_part(dash, t, f);
    rendering::tokens_stay_in_their_part("albumArtist"@, r2, f);
    rendering::slashes_begin_a_part(r1, f);
    rendering::plain_text_stays_in_its_part(folder, r0, f);
    assert(title + none =~= title && folder + none =~= folder);
    assert(template::rendered_parts(t, f) =~= seq![title]);
    assert(template::rendered_parts(r2, f) =~= seq![dash + title]);
    assert(info.album_artist + (dash + title) =~= name);
    assert(template::rendered_parts(r1, f) =~= seq![name]);
    assert(template::rendered_parts(r0, f) =~= seq![none, name]);
    assert(template::rendered_parts(schema, f) =~= seq![folder, name]);
    assert(name[info.album_artist.len() as int + 1] == '-');
    template::plain_char_is_kept(name, opts, info.album_artist.len() as int + 1);
    rendering::two_parts_make_a_path(schema, f, opts, folder, name);
    assert("/"@ =~= seq!['/']);
    let (a, b) = (template::sanitized(folder, opts), template::sanitized(name, opts));
    assert(cfg.various_folder@ + seq!['/'] + (a + seq!['/'] + b) =~= cfg.various_folder@ + seq!['/']
        + a + seq!['/'] + b);
}

/// An ordinary album goes where the schema of the settings says; with the usual one that is a folder
/// of its artist, and in it one with its name and year.
pub proof fn albums_lie_with_their_artist(info: InfoView, cfg: Config, first_title: Seq<char>)
    requires
        cfg.folder_schema@ == "{albumArtist}/{album} ({year})"@,
    ensures
        ({
            let opts = organizer::options(cfg);
            let own = template::sanitized(dated(info.album, info.year), opts) + mark(info.recording);
            let artist = template::sanitized(info.album_artist, opts);
            organizer::target_dir(Bucket::Normal, info, cfg, first_title) == if artist.len() > 0 {
                artist + seq!['/'] + own
            } else {
                own
            }
        }),
{
    token_words();
    marks_are_suffixes(info.recording);
    let f = organizer::fields_of_album(info, first_title);
    let opts = organizer::options(cfg);
    rendering::placeholders_stand_for_their_fields(f);
    reveal_strlit("albumArtist");
    reveal_strlit("{album} ({year})");
    reveal_strlit("{albumArtist}/{album} ({year})");
    let none = Seq::<char>::empty();
    let name = dated(info.album, info.year);
    let inner = "{album} ({year})"@;
    let schema = cfg.folder_schema@;
    dated_parts(f);
    assert(schema =~= rendering::token("albumArtist"@) + (seq!['/'] + inner));
    rendering::slashes_begin_a_part(inner, f);
    rendering::tokens_stay_in_their_part("albumArtist"@, seq!['/'] + inner, f);
    assert(info.album_artist + none =~= info.album_artist);
    assert(template::rendered_parts(seq!['/'] + inner, f) =~= seq![none, name]);
    assert(template::rendered_parts(schema, f) =~= seq![info.album_artist, name]);
    dated_names_are_kept(info.album, info.year, opts);
    rendering::two_parts_make_a_path(schema, f, opts, info.album_artist, name);
    let artist = template::sanitized(info.album_artist, opts);
    let own = template::sanitized(name, opts);
    assert(artist + seq!['/'] + own + mark(info.recording) =~= artist + seq!['/'] + (own + mark(
        info.recording,
    )));
}

proof fn first_letter_is_no_device(s: Seq<char>)
    requires
        s.len() > 0,
        !s.contains('.'),
        s[0] == 'V' || s[0] == 'S',
    ensures
        !template::reserved_windows(s),
{
    reveal_strlit(".");
    reveal_strlit("CON");
    reveal_strlit("PRN");
    reveal_strlit("AUX");
    reveal_strlit("NUL");
    reveal_strlit("COM");
    reveal_strlit("LPT");
    let p = text::among("."@);
    assert forall|i: int| 0 <= i < s.len() implies !p(#[trigger] s[i]) by {
        assert(s.contains(s[i]));
        if "."@.contains(s[i]) {
            let k = choose|k: int| 0 <= k < "."@.len() && "."@[k] == s[i];
        }
    }
    text::split_without_separator(s, p);
    let base = template::device_base(s);
    assert(base[0] == 'V' || base[0] == 'S');
    assert("CON"@[0] == 'C' && "PRN"@[0] == 'P' && "AUX"@[0] == 'A' && "NUL"@[0] == 'N');
    if text::begins(base, "COM"@) {
        assert(base.subrange(0, 3)[0] == "COM"@[0]);
    }
    if text::begins(base, "LPT"@) {
        assert(base.subrange(0, 3)[0] == "LPT"@[0]);
    }
}

proof fn usual_folders(cfg: Config)
    requires
        cfg.reads(Map::empty()),
    ensures
        cfg.various_folder@ == "Various Artist"@,
        cfg.soundtrack_folder@ == "Sound Tracks"@,
        cfg.singles_folder@ == "Singles"@,
        cfg.nest_buckets_under_various,
        cfg.singles_under_artist,
        folder_word(cfg.various_folder@),
        folder_word(cfg.soundtrack_folder@),
        folder_word(cfg.singles_folder@),
        template::sanitized("Various Artist"@, organizer::options(cfg)) == "Various Artist"@,
        template::sanitized("Sound Tracks"@, organizer::options(cfg)) == "Sound Tracks"@,
        template::sanitized("Singles"@, organizer::options(cfg)) == "Singles"@,
        "Various Artist"@.len() > 0 && "Sound Tracks"@.len() > 0 && "Singles"@.len() > 0,
{
    reveal_strlit("Various Artist");
    reveal_strlit("Sound Tracks");
    reveal_strlit("Singles");
    let opts = organizer::options(cfg);
    first_letter_is_no_device("Various Artist"@);
    first_letter_is_no_device("Sound Tracks"@);
    first_letter_is_no_device("Singles"@);
    names::good_names_are_kept("Various Artist"@, opts);
    names::good_names_are_kept("Sound Tracks"@, opts);
    names::good_names_are_kept("Singles"@, opts);
}

/// Where nothing is set, every kind of album has its place: compilations under `Various Artist`,
/// soundtracks under `Various Artist/Sound Tracks`, singles under `Singles` in the folder of their
/// artist or else under `Various Artist/Singles`, and all others in the folder of their artist.
pub proof fn usual_places(info: InfoView, cfg: Config, first_title: Seq<char>)
    requires
        cfg.reads(Map::empty()),
    ensures
        ({
            let opts = organizer::options(cfg);
            let own = template::sanitized(dated(info.album, info.year), opts) + mark(info.recording);
            let artist = template::sanitized(info.album_artist, opts);
            let title = single_title(info.album, first_title);
            &&& organizer::target_dir(Bucket::Various, info, cfg, first_title) == "Various Artist/"@
                + own
            &&& organizer::target_dir(Bucket::Soundtrack, info, cfg, first_title)
                == "Various Artist/Sound Tracks/"@ + own
            &&& text::trimmed(info.album_artist).len() > 0 && artist.len() > 0
                && template::sanitized(title, opts).len() > 0 ==> organizer::target_dir(
                Bucket::Singles,
                info,
                cfg,
                first_title,
            ) == artist + "/Singles/"@ + template::sanitized(title, opts) + mark(info.recording)
            &&& text::trimmed(info.album_artist).len() == 0 ==> organizer::target_dir(
                Bucket::Singles,
                info,
                cfg,
                first_title,
            ) == "Various Artist/Singles/"@ + template::sanitized(
                info.album_artist + seq![' ', '-', ' '] + title,
                opts,
            ) + mark(info.recording)
            &&& artist.len() > 0 ==> organizer::target_dir(Bucket::Normal, info, cfg, first_title)
                == artist + seq!['/'] + own
        }),
{
    usual_folders(cfg);
    let opts = organizer::options(cfg);
    let own = template::sanitized(dated(info.album, info.year), opts) + mark(info.recording);
    let artist = template::sanitized(info.album_artist, opts);
    let title = single_title(info.album, first_title);
    compilations_have_folders_of_their_own(info, cfg, first_title);
    soundtracks_have_folders_of_their_own(info, cfg, first_title);
    albums_lie_with_their_artist(info, cfg, first_title);
    reveal_strlit("Various Artist");
    reveal_strlit("Sound Tracks");
    reveal_strlit("Singles");
    reveal_strlit("Various Artist/");
    reveal_strlit("Various Artist/Sound Tracks/");
    reveal_strlit("Various Artist/Singles/");
    reveal_strlit("/Singles/");
    let name = template::sanitized(dated(info.album, info.year), opts);
    assert("Various Artist"@ + seq!['/'] =~= "Various Artist/"@);
    assert("Various Artist"@ + seq!['/'] + name + mark(info.recording) =~= "Various Artist/"@ + own);
    assert("Various Artist"@ + seq!['/'] + ("Sound Tracks"@ + seq!['/'] + name + mark(
        info.recording,
    )) =~= "Various Artist/Sound Tracks/"@ + own);
    if text::trimmed(info.album_artist).len() == 0 {
        other_singles_lie_together(info, cfg, first_title);
        assert("Various Artist"@ + seq!['/'] + "Singles"@ + seq!['/'] =~= "Various Artist/Singles/"@);
    } else if artist.len() > 0 && template::sanitized(title, opts).len() > 0 {
        singles_lie_with_their_artist(info, cfg, first_title);
        assert(artist + seq!['/'] + "Singles"@ + seq!['/'] =~= artist + "/Singles/"@);
    }
}

/// Two compilations share a folder only where their names and years make the same name; the same is
/// true of soundtracks. (Both are studio albums, or both live, or both bootlegs.)
pub proof fn different_albums_have_different_folders(
    a: InfoView,
    b: InfoView,
    cfg: Config,
    first_title: Seq<char>,
    other_title: Seq<char>,
    bucket: Bucket,
)
    requires
        cfg.reads(Map::empty()),
        bucket == Bucket::Various || bucket == Bucket::Soundtrack,
        a.recording == b.recording,
    ensures
        organizer::target_dir(bucket, a, cfg, first_title) == organizer::target_dir(
            bucket,
            b,
            cfg,
            other_title,
        ) <==> template::sanitized(dated(a.album, a.year), organizer::options(cfg))
            == template::sanitized(dated(b.album, b.year), organizer::options(cfg)),
{
    usual_places(a, cfg, first_title);
    usual_places(b, cfg, other_title);
    let opts = organizer::options(cfg);
    let (x, y) = (
        template::sanitized(dated(a.album, a.year), opts),
        template::sanitized(dated(b.album, b.year), opts),
    );
    let front = if bucket == Bucket::Various {
        "Various Artist/"@
    } else {
        "Various Artist/Sound Tracks/"@
    };
    let (s, t) = (front + (x + mark(a.recording)), front + (y + mark(a.recording)));
    if s == t {
        assert(s.skip(front.len() as int) =~= x + mark(a.recording));
        assert(t.skip(front.len() as int) =~= y + mark(a.recording));
        assert((x + mark(a.recording)).take(x.len() as int) =~= x);
        assert((y + mark(a.recording)).take(y.len() as int) =~= y);
        assert(x.len() == y.len()) by {
            assert((x + mark(a.recording)).len() == (y + mark(a.recording)).len());
        }
    }
}

} // verus!
