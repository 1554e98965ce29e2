//! Paths and the names of files, taken apart and put together.

use crate::organizer;
use crate::text;
use vstd::prelude::*;

verus! {

proof fn last_mark(s: Seq<char>, c: char, pat: Seq<char>)
    requires
        pat == seq![c],
    ensures
        match text::found_last(s, pat) {
            Some(i) => 0 <= i < s.len() && s[i] == c && !s.skip(i + 1).contains(c),
            None => !s.contains(c),
        },
{
    text::find_back_meaning(s, pat, s.len() - pat.len());
    match text::found_last(s, pat) {
        Some(i) => {
            assert(s.subrange(i, i + 1)[0] == s[i]);
            if s.skip(i + 1).contains(c) {
                let rest = s.skip(i + 1);
                let k = choose|k: int| 0 <= k < rest.len() && rest[k] == c;
                assert(s.subrange(i + 1 + k, i + 2 + k) =~= pat);
                assert(text::stands_at(s, pat, i + 1 + k));
            }
        },
        None => {
            if s.contains(c) {
                let k = choose|k: int| 0 <= k < s.len() && s[k] == c;
                assert(s.subrange(k, k + 1) =~= pat);
                assert(text::stands_at(s, pat, k));
            }
        },
    }
}

/// A path is its folder and its name with a slash between them, and there is no slash in the name. A
/// path without a slash lies in no folder.
pub proof fn paths_are_folder_and_name(p: Seq<char>)
    ensures
        !organizer::last_part(p).contains('/'),
        p.contains('/') ==> p == organizer::parent(p) + seq!['/'] + organizer::last_part(p),
        !p.contains('/') ==> organizer::parent(p).len() == 0 && organizer::last_part(p) == p,
{
    reveal_strlit("/");
    assert("/"@ =~= seq!['/']);
    last_mark(p, '/', "/"@);
    match text::found_last(p, "/"@) {
        Some(i) => {
            assert(p =~= p.take(i) + seq!['/'] + p.skip(i + 1));
            assert(p[i] == '/');
        },
        None => {},
    }
}

/// A name is its stem and its extension with a dot between them, and there is no dot in the extension;
/// the extension counts in lower case.
pub proof fn names_are_stem_and_extension(name: Seq<char>)
    ensures
        name.contains('.') ==> exists|ext: Seq<char>|
            name == organizer::stem(name) + seq!['.'] + ext && !ext.contains('.')
                && organizer::extension(name) == #[trigger] text::lowered(ext),
        !name.contains('.') ==> organizer::stem(name) == name && organizer::extension(name).len()
            == 0,
{
    reveal_strlit(".");
    assert("."@ =~= seq!['.']);
    last_mark(name, '.', "."@);
    match text::found_last(name, "."@) {
        Some(i) => {
            let ext = name.skip(i + 1);
            assert(name =~= name.take(i) + seq!['.'] + ext);
            assert(organizer::extension(name) == text::lowered(ext));
        },
        None => {},
    }
}

/// A name that is put into a folder is found there again.
pub proof fn joined_paths_come_apart(dir: Seq<char>, name: Seq<char>)
    requires
        !name.contains('/'),
    ensures
        organizer::last_part(organizer::joined_rel(dir, name)) == name,
        organizer::parent(organizer::joined_rel(dir, name)) == dir,
{
    reveal_strlit("/");
    assert("/"@ =~= seq!['/']);
    let p = organizer::joined_rel(dir, name);
    paths_are_folder_and_name(p);
    if dir.len() > 0 {
        assert(p =~= dir + seq!['/'] + name);
        assert(p[dir.len() as int] == '/');
        crate::laws::pieces::last_cut(
            dir,
            name,
            organizer::parent(p),
            organizer::last_part(p),
            '/',
        );
    } else {
        assert(organizer::parent(p) =~= dir);
    }
}

/// A file is audio by its extension, in whatever case.
pub proof fn audio_goes_by_extension(stem: Seq<char>, ext: Seq<char>)
    requires
        !ext.contains('.'),
    ensures
        ({
            let low = text::lowered(ext);
            organizer::audio(stem + seq!['.'] + ext) <==> low == "mp3"@ || low == "flac"@ || low
                == "m4a"@ || low == "aac"@ || low == "ogg"@ || low == "oga"@ || low == "opus"@ || low
                == "wav"@ || low == "wv"@ || low == "aiff"@ || low == "aif"@ || low == "ape"@ || low
                == "mpc"@
        }),
{
    let name = stem + seq!['.'] + ext;
    extension_is_what_follows(stem, ext);
    let all = organizer::audio_extensions();
    let low = text::lowered(ext);
    assert(all[0] == "mp3"@ && all[1] == "flac"@ && all[2] == "m4a"@ && all[3] == "aac"@ && all[4]
        == "ogg"@ && all[5] == "oga"@ && all[6] == "opus"@ && all[7] == "wav"@ && all[8] == "wv"@
        && all[9] == "aiff"@ && all[10] == "aif"@ && all[11] == "ape"@ && all[12] == "mpc"@
        && all.len() == 13);
    if all.contains(low) {
        let i = choose|i: int| 0 <= i < all.len() && all[i] == low;
    }
}

proof fn extension_is_what_follows(stem: Seq<char>, ext: Seq<char>)
    requires
        !ext.contains('.'),
    ensures
        organizer::extension(stem + seq!['.'] + ext) == text::lowered(ext),
        organizer::stem(stem + seq!['.'] + ext) == stem,
        text::found_last(stem + seq!['.'] + ext, "."@) is Some,
{
    reveal_strlit(".");
    assert("."@ =~= seq!['.']);
    let name = stem + seq!['.'] + ext;
    assert(name[stem.len() as int] == '.');
    last_mark(name, '.', "."@);
    match text::found_last(name, "."@) {
        Some(i) => {
            assert(name =~= name.take(i) + seq!['.'] + name.skip(i + 1));
            crate::laws::pieces::last_cut(stem, ext, name.take(i), name.skip(i + 1), '.');
        },
        None => {},
    }
}

/// A file goes along with a track by its extension, in whatever case: words, pictures, notes and cue
/// sheets.
pub proof fn companions_go_by_extension(stem: Seq<char>, ext: Seq<char>)
    requires
        !ext.contains('.'),
    ensures
        ({
            let low = text::lowered(ext);
            organizer::sidecar(stem + seq!['.'] + ext) <==> low == "lrc"@ || low == "jpg"@ || low
                == "jpeg"@ || low == "png"@ || low == "nfo"@ || low == "cue"@
        }),
{
    extension_is_what_follows(stem, ext);
    let all = organizer::sidecar_extensions();
    let low = text::lowered(ext);
    assert(all[0] == "lrc"@ && all[1] == "jpg"@ && all[2] == "jpeg"@ && all[3] == "png"@ && all[4]
        == "nfo"@ && all[5] == "cue"@ && all.len() == 6);
    if all.contains(low) {
        let i = choose|i: int| 0 <= i < all.len() && all[i] == low;
    }
}

/// The files that go along with a track are those in its folder that begin with its stem and have such
/// an extension: all of them, in their order.
pub proof fn every_companion_goes_along(names: Seq<Seq<char>>, stem: Seq<char>)
    ensures
        organizer::companions(names, stem) == names.filter(
            |n: Seq<char>| organizer::sidecar(n) && text::begins(n, stem),
        ),
    decreases names.len(),
{
    reveal(Seq::filter);
    if names.len() > 0 {
        every_companion_goes_along(names.drop_last(), stem);
    } else {
        assert(organizer::companions(names, stem) =~= Seq::empty());
    }
}

/// The files that belong to a folder as a whole are those with one of the usual names that are not
/// hidden: all of them, in their order.
pub proof fn every_folder_file_is_found(names: Seq<Seq<char>>)
    ensures
        organizer::folder_files(names) == names.filter(
            |n: Seq<char>| !text::begins(n, "."@) && organizer::folder_sidecar(n),
        ),
    decreases names.len(),
{
    reveal(Seq::filter);
    if names.len() > 0 {
        every_folder_file_is_found(names.drop_last());
    } else {
        assert(organizer::folder_files(names) =~= Seq::empty());
    }
}

/// The usual names: notes on album and artist, and pictures of the cover, the folder, the front, the
/// back and the disc, in whatever case.
pub proof fn folder_files_have_the_usual_names(name: Seq<char>)
    ensures
        ({
            let low = text::lowered(name);
            organizer::folder_sidecar(name) <==> low == "album.nfo"@ || low == "artist.nfo"@ || low
                == "cover.jpg"@ || low == "cover.png"@ || low == "cover.jpeg"@ || low
                == "folder.jpg"@ || low == "folder.png"@ || low == "front.jpg"@ || low
                == "front.png"@ || low == "back.jpg"@ || low == "back.png"@ || low == "cd.jpg"@
                || low == "cd.png"@
        }),
{
    let all = organizer::folder_sidecars();
    let low = text::lowered(name);
    assert(all[0] == "album.nfo"@ && all[1] == "artist.nfo"@ && all[2] == "cover.jpg"@ && all[3]
        == "cover.png"@ && all[4] == "cover.jpeg"@ && all[5] == "folder.jpg"@ && all[6]
        == "folder.png"@ && all[7] == "front.jpg"@ && all[8] == "front.png"@ && all[9]
        == "back.jpg"@ && all[10] == "back.png"@ && all[11] == "cd.jpg"@ && all[12] == "cd.png"@
        && all.len() == 13);
    if all.contains(low) {
        let i = choose|i: int| 0 <= i < all.len() && all[i] == low;
    }
}

/// A file name of the form number, mark, title gives the number and the title. The marks between
/// them are dashes, dots, brackets, underscores and spaces.
pub proof fn numbered_names_are_read(number: nat, title: Seq<char>, ext: Seq<char>, mark: char)
    requires
        number <= u32::MAX,
        mark == '-' || mark == ' ' || mark == '_' || mark == '.' || mark == ')' || mark == '('
            || mark == '[',
        title.len() > 0,
        title[0] != '-' && title[0] != ' ' && title[0] != '_' && title[0] != '.' && title[0] != ')'
            && title[0] != '(' && title[0] != '[',
        !text::is_white(title.last()),
        !ext.contains('.'),
    ensures
        organizer::name_parts(
            text::decimal(number) + seq![' ', mark, ' '] + title + seq!['.'] + ext,
        ) == (Some(number as u32), title),
{
    let d = text::decimal(number);
    let body = d + seq![' ', mark, ' '] + title;
    let name = body + seq!['.'] + ext;
    extension_is_what_follows(body, ext);
    text::decimal_reads_back(number);
    text::decimal_int_reads_back(number as int, 0, u32::MAX as int);
    assert(text::is_digit(d[0]));
    // Nothing is trimmed: a digit stands in front, and the title ends as it ends.
    assert(body[0] == d[0] && body.last() == title.last());
    assert(!text::white()(body[0]) && !text::white()(body.last()));
    assert(text::strip_front(body, text::white()) == body);
    assert(text::trimmed(body) == body);
    // The digits in front are those of the number.
    let tail = seq![' ', mark, ' '] + title;
    assert(body =~= d + tail);
    digits_in_front(d, tail);
    assert(body.take(d.len() as int) =~= d);
    assert(organizer::leading_digits(body) == d);
    assert(body.skip(d.len() as int) =~= tail);
    marks_in_front(mark, title);
}

proof fn digits_in_front(d: Seq<char>, tail: Seq<char>)
    requires
        text::all_digits(d),
        tail.len() > 0,
        !text::is_digit(tail[0]),
    ensures
        text::strip_front(d + tail, crate::fraction::digit()) == tail,
    decreases d.len(),
{
    let p = crate::fraction::digit();
    if d.len() == 0 {
        assert(d + tail =~= tail);
        assert(!p(tail[0]));
    } else {
        let rest = d.drop_first();
        assert(text::is_digit(d[0]) && (d + tail)[0] == d[0]);
        assert forall|i: int| 0 <= i < rest.len() implies text::is_digit(#[trigger] rest[i]) by {
            assert(text::is_digit(d[i + 1]));
        }
        digits_in_front(rest, tail);
        assert((d + tail).drop_first() =~= rest + tail);
    }
}

proof fn marks_in_front(mark: char, title: Seq<char>)
    requires
        mark == '-' || mark == ' ' || mark == '_' || mark == '.' || mark == ')' || mark == '('
            || mark == '[',
        title.len() > 0,
        title[0] != '-' && title[0] != ' ' && title[0] != '_' && title[0] != '.' && title[0] != ')'
            && title[0] != '(' && title[0] != '[',
    ensures
        text::strip_front(seq![' ', mark, ' '] + title, text::among("- _.)(["@)) == title,
{
    reveal_strlit("- _.)([");
    let set = "- _.)(["@;
    let p = text::among(set);
    assert(set[0] == '-' && set[1] == ' ' && set[2] == '_' && set[3] == '.' && set[4] == ')' && set[5]
        == '(' && set[6] == '[' && set.len() == 7);
    assert(p(' ') && p(mark));
    assert(!p(title[0])) by {
        if set.contains(title[0]) {
            let k = choose|k: int| 0 <= k < set.len() && set[k] == title[0];
        }
    }
    let a = seq![' ', mark, ' '] + title;
    let b = seq![mark, ' '] + title;
    let c = seq![' '] + title;
    assert(a.drop_first() =~= b && b.drop_first() =~= c && c.drop_first() =~= title);
    assert(a[0] == ' ' && b[0] == mark && c[0] == ' ');
    reveal_with_fuel(text::strip_front, 4);
}

} // verus!
