//! What a template makes of the values that are filled in.

use crate::template;
use crate::template::FieldsView;
use crate::text;
use vstd::prelude::*;

verus! {

/// A piece of a template that stands for itself.
pub open spec fn without_tokens(s: Seq<char>) -> bool {
    !s.contains('{')
}

/// A name between braces.
pub open spec fn token_name(s: Seq<char>) -> bool {
    s.len() > 0 && !s.contains('}') && !s.contains('{') && !s.contains(':')
}

/// A token: a name between braces.
pub open spec fn token(name: Seq<char>) -> Seq<char> {
    seq!['{'] + name + seq!['}']
}

/// A token ends at its closing brace.
pub proof fn token_is_cut(name: Seq<char>, rest: Seq<char>)
    requires
        name.len() > 0,
        !name.contains('}'),
    ensures
        template::token_end(token(name) + rest) == Some(name.len() as int + 1),
        (token(name) + rest).subrange(1, name.len() as int + 1) == name,
        (token(name) + rest).skip(name.len() as int + 2) == rest,
{
    reveal_strlit("}");
    let s = token(name) + rest;
    let end = name.len() as int + 1;
    let pat = "}"@;
    text::find_from_meaning(s, pat, 0);
    assert(s[end] == '}');
    assert(s.subrange(end, end + 1) =~= pat);
    assert(text::stands_at(s, pat, end));
    match text::found(s, pat) {
        Some(at) => {
            assert(s.subrange(at, at + 1)[0] == s[at]);
            if at < end {
                if at > 0 {
                    assert(s[at] == name[at - 1]);
                    assert(name.contains('}'));
                }
            }
        },
        None => {},
    }
    assert(s.subrange(1, end) =~= name);
    assert(s.skip(name.len() as int + 2) =~= rest);
}

proof fn no_colon(name: Seq<char>)
    requires
        !name.contains(':'),
    ensures
        text::found(name, ":"@) is None,
{
    reveal_strlit(":");
    let pat = ":"@;
    text::find_from_meaning(name, pat, 0);
    match text::found(name, pat) {
        Some(at) => {
            assert(name.subrange(at, at + 1)[0] == name[at]);
            assert(name.contains(':'));
        },
        None => {},
    }
}

/// Text that is no token is kept as it is, in front of whatever follows.
pub proof fn plain_text_is_kept(plain: Seq<char>, rest: Seq<char>, f: FieldsView)
    requires
        without_tokens(plain),
    ensures
        template::rendered(plain + rest, f) == plain + template::rendered(rest, f),
    decreases plain.len(),
{
    if plain.len() == 0 {
        assert(plain + rest =~= rest);
        assert(plain + template::rendered(rest, f) =~= template::rendered(rest, f));
    } else {
        let s = plain + rest;
        assert(s[0] == plain[0] && plain.contains(plain[0]));
        assert(s.skip(1) =~= plain.skip(1) + rest);
        if plain.skip(1).contains('{') {
            let i = choose|i: int| 0 <= i < plain.skip(1).len() && plain.skip(1)[i] == '{';
            assert(plain[i + 1] == '{');
        }
        plain_text_is_kept(plain.skip(1), rest, f);
        assert(seq![plain[0]] + (plain.skip(1) + template::rendered(rest, f)) =~= plain
            + template::rendered(rest, f));
    }
}

/// A token is replaced by the value of its name, in front of whatever follows.
pub proof fn tokens_are_replaced(name: Seq<char>, rest: Seq<char>, f: FieldsView)
    requires
        token_name(name),
    ensures
        template::rendered(token(name) + rest, f) == f.value(name) + template::rendered(rest, f),
{
    token_is_cut(name, rest);
    no_colon(name);
}

/// A number with a width behind its name is filled up with noughts from the left: it has at least
/// that many digits, and it is the same number.
pub proof fn numbers_are_filled_up(n: u32, width: nat)
    requires
        width <= usize::MAX,
    ensures
        ({
            let shown = template::padded(text::decimal(n as nat), text::decimal(width));
            &&& shown.len() >= width
            &&& shown.len() == width || shown == text::decimal(n as nat)
            &&& text::all_digits(shown)
            &&& text::digits_value(shown) == n
        }),
{
    let digits = text::decimal(n as nat);
    text::decimal_reads_back(n as nat);
    text::decimal_int_reads_back(width as int, 0, usize::MAX as int);
    assert(text::decimal_int(width as int) == text::decimal(width));
    reveal_strlit("-");
    assert(text::is_digit(digits[0]));
    assert(!text::among("-"@)(digits[0])) by {
        if "-"@.contains(digits[0]) {
            let i = choose|i: int| 0 <= i < "-"@.len() && "-"@[i] == digits[0];
        }
    }
    assert(text::strip_front(digits, text::among("-"@)) == digits);
    if digits.len() < width {
        noughts_add_nothing((width - digits.len()) as nat, digits);
    }
}

proof fn noughts_add_nothing(n: nat, digits: Seq<char>)
    requires
        text::all_digits(digits),
    ensures
        text::all_digits(template::zeros(n) + digits),
        text::digits_value(template::zeros(n) + digits) == text::digits_value(digits),
    decreases digits.len(),
{
    let all = template::zeros(n) + digits;
    assert forall|i: int| 0 <= i < all.len() implies text::is_digit(#[trigger] all[i]) by {
        if i >= n {
            assert(all[i] == digits[i - n]);
        }
    }
    if digits.len() == 0 {
        assert(all =~= template::zeros(n));
        noughts_are_nought(n);
    } else {
        let front = digits.drop_last();
        assert forall|i: int| 0 <= i < front.len() implies text::is_digit(#[trigger] front[i]) by {
            assert(text::is_digit(digits[i]));
        }
        noughts_add_nothing(n, front);
        assert(all.drop_last() =~= template::zeros(n) + front);
        assert(all.last() == digits.last());
    }
}

proof fn noughts_are_nought(n: nat)
    ensures
        text::digits_value(template::zeros(n)) == 0,
    decreases n,
{
    if n > 0 {
        let z = template::zeros(n);
        noughts_are_nought((n - 1) as nat);
        assert(z.drop_last() =~= template::zeros((n - 1) as nat));
        assert(z.last() == '0');
    }
}

/// A name with a width behind it renders a number filled up to that width.
pub proof fn widths_fill_up(name: Seq<char>, width: nat, rest: Seq<char>, f: FieldsView)
    requires
        name == "track"@ || name == "disc"@ || name == "year"@,
        width <= usize::MAX,
    ensures
        f.value(name).len() > 0 ==> template::rendered(
            token(name + seq![':'] + text::decimal(width)) + rest,
            f,
        ) == template::padded(f.value(name), text::decimal(width)) + template::rendered(rest, f),
        f.value(name).len() == 0 ==> template::rendered(
            token(name + seq![':'] + text::decimal(width)) + rest,
            f,
        ) == template::rendered(rest, f),
{
    reveal_strlit("track");
    reveal_strlit("disc");
    reveal_strlit("year");
    reveal_strlit(":");
    let whole = name + seq![':'] + text::decimal(width);
    text::decimal_reads_back(width);
    assert forall|i: int| 0 <= i < whole.len() implies whole[i] != '}' && whole[i] != '{' by {
        if i > name.len() {
            assert(whole[i] == text::decimal(width)[i - name.len() - 1]);
            assert(text::is_digit(text::decimal(width)[i - name.len() - 1]));
        }
    }
    token_is_cut(whole, rest);
    let pat = ":"@;
    text::find_from_meaning(whole, pat, 0);
    let at = name.len() as int;
    assert(whole[at] == ':');
    assert(whole.subrange(at, at + 1) =~= pat);
    assert(text::stands_at(whole, pat, at));
    match text::found(whole, pat) {
        Some(k) => {
            assert(whole.subrange(k, k + 1)[0] == whole[k]);
            if k < at {
                assert(whole[k] == name[k]);
            }
        },
        None => {},
    }
    assert(whole.take(at) =~= name);
    assert(whole.skip(at + 1) =~= text::decimal(width));
    assert(Seq::<char>::empty() + template::rendered(rest, f) =~= template::rendered(rest, f));
}

/// Every placeholder stands for the field of its name.
pub proof fn placeholders_stand_for_their_fields(f: FieldsView)
    ensures
        f.value("title"@) == f.title,
        f.value("artist"@) == f.artist,
        f.value("albumArtist"@) == f.album_artist,
        f.value("album"@) == f.album,
        f.value("genre"@) == f.genre,
        f.value("recording"@) == f.recording,
        f.value("mbid"@) == f.mbid,
        f.track matches Some(n) ==> f.value("track"@) == text::decimal(n as nat),
        f.disc matches Some(n) ==> f.value("disc"@) == text::decimal(n as nat),
        f.year matches Some(n) ==> f.value("year"@) == text::decimal(n as nat),
        f.track is None ==> f.value("track"@).len() == 0,
        f.disc is None ==> f.value("disc"@).len() == 0,
        f.year is None ==> f.value("year"@).len() == 0,
{
    reveal_strlit("track");
    reveal_strlit("disc");
    reveal_strlit("year");
    reveal_strlit("title");
    reveal_strlit("artist");
    reveal_strlit("albumArtist");
    reveal_strlit("album");
    reveal_strlit("genre");
    reveal_strlit("recording");
    reveal_strlit("mbid");
    assert("track"@.len() == 5 && "disc"@.len() == 4 && "year"@.len() == 4 && "title"@.len() == 5
        && "artist"@.len() == 6 && "albumArtist"@.len() == 11 && "album"@.len() == 5
        && "genre"@.len() == 5 && "recording"@.len() == 9 && "mbid"@.len() == 4);
    assert("track"@[1] == 'r' && "title"@[1] == 'i' && "album"@[1] == 'l' && "genre"@[1] == 'e');
    assert("disc"@[0] == 'd' && "year"@[0] == 'y' && "mbid"@[0] == 'm');
}

// ---------------------------------------------------------------------------
// Folders

/// `parts` with `front` put before the first of them, as a relation between two lists.
pub open spec fn begun(front: Seq<char>, parts: Seq<Seq<char>>) -> Seq<Seq<char>> {
    parts.update(0, front + parts[0])
}

proof fn parts_are_there(s: Seq<char>, f: FieldsView)
    ensures
        template::rendered_parts(s, f).len() > 0,
    decreases s.len(),
{
    if s.len() > 0 {
        match template::token_end(s) {
            Some(end) => {
                parts_are_there(s.skip(end + 1), f);
            },
            None => {
                parts_are_there(s.skip(1), f);
            },
        }
    }
}

/// Text that is no token and holds no slash is kept as it is.
pub proof fn plain_text_stays_in_its_part(plain: Seq<char>, rest: Seq<char>, f: FieldsView)
    requires
        without_tokens(plain),
        !plain.contains('/'),
    ensures
        template::rendered_parts(plain + rest, f) == begun(plain, template::rendered_parts(rest, f)),
        template::rendered_parts(rest, f).len() > 0,
    decreases plain.len(),
{
    let tail = template::rendered_parts(rest, f);
    parts_are_there(rest, f);
    if plain.len() == 0 {
        assert(plain + rest =~= rest);
        assert(plain + tail[0] =~= tail[0]);
        assert(begun(plain, tail) =~= tail);
    } else {
        let s = plain + rest;
        assert(s[0] == plain[0] && plain.contains(plain[0]));
        assert(s.skip(1) =~= plain.skip(1) + rest);
        if plain.skip(1).contains('{') {
            let i = choose|i: int| 0 <= i < plain.skip(1).len() && plain.skip(1)[i] == '{';
            assert(plain[i + 1] == '{');
        }
        if plain.skip(1).contains('/') {
            let i = choose|i: int| 0 <= i < plain.skip(1).len() && plain.skip(1)[i] == '/';
            assert(plain[i + 1] == '/');
        }
        plain_text_stays_in_its_part(plain.skip(1), rest, f);
        let inner = begun(plain.skip(1), tail);
        assert(seq![plain[0]] + (plain.skip(1) + tail[0]) =~= plain + tail[0]);
        assert(template::prefixed(seq![plain[0]], inner) =~= begun(plain, tail));
    }
}

/// The value of a token stays in its part.
pub proof fn tokens_stay_in_their_part(name: Seq<char>, rest: Seq<char>, f: FieldsView)
    requires
        token_name(name),
    ensures
        template::rendered_parts(token(name) + rest, f) == begun(
            f.value(name),
            template::rendered_parts(rest, f),
        ),
        template::rendered_parts(rest, f).len() > 0,
{
    token_is_cut(name, rest);
    no_colon(name);
    parts_are_there(rest, f);
    let tail = template::rendered_parts(rest, f);
    assert(template::prefixed(f.value(name), tail) =~= begun(f.value(name), tail));
}

/// A slash of the template begins a new part.
pub proof fn slashes_begin_a_part(rest: Seq<char>, f: FieldsView)
    ensures
        template::rendered_parts(seq!['/'] + rest, f) == seq![Seq::<char>::empty()]
            + template::rendered_parts(rest, f),
{
    assert((seq!['/'] + rest).skip(1) =~= rest);
}

/// At the end there is one empty part.
pub proof fn an_empty_template_is_one_part(f: FieldsView)
    ensures
        template::rendered_parts(Seq::empty(), f) == seq![Seq::<char>::empty()],
{
}

/// The parts of a folder are made into names one by one and stand behind each other with a slash
/// between them, where something is left of each.
pub proof fn two_parts_make_a_path(
    schema: Seq<char>,
    f: FieldsView,
    opts: template::SanitizeOptions,
    a: Seq<char>,
    b: Seq<char>,
)
    requires
        template::rendered_parts(schema, f) == seq![a, b],
    ensures
        template::sanitized(a, opts).len() > 0 && template::sanitized(b, opts).len() > 0
            ==> template::folder_path(schema, f, opts) == template::sanitized(a, opts) + seq!['/']
            + template::sanitized(b, opts),
        template::sanitized(a, opts).len() == 0 ==> template::folder_path(schema, f, opts)
            == template::sanitized(b, opts),
        template::sanitized(b, opts).len() == 0 ==> template::folder_path(schema, f, opts)
            == template::sanitized(a, opts),
{
    reveal_strlit("/");
    assert("/"@ =~= seq!['/']);
    let parts = seq![a, b];
    assert(parts.drop_last() =~= seq![a]);
    assert(seq![a].drop_last() =~= Seq::<Seq<char>>::empty());
    reveal_with_fuel(template::components, 3);
    let (x, y) = (template::sanitized(a, opts), template::sanitized(b, opts));
    let none = Seq::<Seq<char>>::empty();
    assert(none.push(x).push(y).drop_last() =~= none.push(x));
    reveal_with_fuel(text::joined, 3);
    if x.len() == 0 {
        assert(x =~= Seq::<char>::empty());
    }
    if y.len() == 0 {
        assert(y =~= Seq::<char>::empty());
    }
    assert(Seq::<char>::empty() =~= text::joined(none, "/"@));
}

/// The same for three parts.
pub proof fn three_parts_make_a_path(
    schema: Seq<char>,
    f: FieldsView,
    opts: template::SanitizeOptions,
    a: Seq<char>,
    b: Seq<char>,
    c: Seq<char>,
)
    requires
        template::rendered_parts(schema, f) == seq![a, b, c],
        template::sanitized(a, opts).len() > 0,
        template::sanitized(b, opts).len() > 0,
        template::sanitized(c, opts).len() > 0,
    ensures
        template::folder_path(schema, f, opts) == template::sanitized(a, opts) + seq!['/']
            + template::sanitized(b, opts) + seq!['/'] + template::sanitized(c, opts),
{
    reveal_strlit("/");
    assert("/"@ =~= seq!['/']);
    assert(seq![a, b, c].drop_last() =~= seq![a, b]);
    assert(seq![a, b].drop_last() =~= seq![a]);
    assert(seq![a].drop_last() =~= Seq::<Seq<char>>::empty());
    reveal_with_fuel(template::components, 4);
    let none = Seq::<Seq<char>>::empty();
    let (x, y, z) = (
        template::sanitized(a, opts),
        template::sanitized(b, opts),
        template::sanitized(c, opts),
    );
    assert(none.push(x).push(y).push(z).drop_last() =~= none.push(x).push(y));
    assert(none.push(x).push(y).drop_last() =~= none.push(x));
    reveal_with_fuel(text::joined, 4);
}

} // verus!
