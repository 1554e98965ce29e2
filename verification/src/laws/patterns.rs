//! Naming patterns of Lidarr, in the words of this library.

use crate::template;
use crate::text;
use vstd::prelude::*;

verus! {

/// What holds no brace is not changed by looking for a token.
proof fn plain_text_stays(s: Seq<char>, token: Seq<char>, to: Seq<char>)
    requires
        token.len() > 0,
        token[0] == '{',
        forall|i: int| 0 <= i < s.len() ==> #[trigger] s[i] != '{',
    ensures
        text::replaced(s, token, to) == s,
    decreases s.len(),
{
    if s.len() >= token.len() {
        if text::begins(s, token) {
            assert(s.subrange(0, token.len() as int)[0] == s[0]);
        }
        let r = s.skip(1);
        assert forall|i: int| 0 <= i < r.len() implies #[trigger] r[i] != '{' by {
            assert(r[i] == s[i + 1]);
        }
        plain_text_stays(r, token, to);
        assert(s =~= seq![s[0]] + r);
    }
}

/// What stands before a token and holds no brace is kept.
proof fn plain_text_is_passed(a: Seq<char>, s: Seq<char>, token: Seq<char>, to: Seq<char>)
    requires
        token.len() > 0,
        token[0] == '{',
        forall|i: int| 0 <= i < a.len() ==> #[trigger] a[i] != '{',
    ensures
        text::replaced(a + s, token, to) == a + text::replaced(s, token, to),
    decreases a.len(),
{
    let t = a + s;
    if a.len() > 0 {
        let r = a.skip(1);
        assert forall|i: int| 0 <= i < r.len() implies #[trigger] r[i] != '{' by {
            assert(r[i] == a[i + 1]);
        }
        plain_text_is_passed(r, s, token, to);
        assert(t.skip(1) =~= r + s);
        assert(t[0] == a[0]);
        assert(a + text::replaced(s, token, to) =~= seq![a[0]] + (r + text::replaced(s, token, to)));
        if t.len() >= token.len() {
            if text::begins(t, token) {
                assert(t.subrange(0, token.len() as int)[0] == t[0]);
            }
        } else {
            assert(t =~= seq![a[0]] + (r + s));
            assert(text::replaced(s, token, to) == s);
        }
    } else {
        assert(t =~= s);
        assert(a + text::replaced(s, token, to) =~= text::replaced(s, token, to));
    }
}

/// A token that differs from the one that is looked for stays, with all that is around it.
proof fn other_tokens_stay(
    a: Seq<char>,
    x: Seq<char>,
    b: Seq<char>,
    token: Seq<char>,
    to: Seq<char>,
    j: int,
)
    requires
        token.len() > 0,
        token[0] == '{',
        forall|i: int| 0 <= i < a.len() ==> #[trigger] a[i] != '{',
        forall|i: int| 0 <= i < b.len() ==> #[trigger] b[i] != '{',
        forall|i: int| 1 <= i < x.len() ==> #[trigger] x[i] != '{',
        0 <= j < x.len() && j < token.len(),
        x[j] != token[j],
    ensures
        text::replaced(a + x + b, token, to) == a + x + b,
{
    let s = x + b;
    assert(a + x + b =~= a + s);
    plain_text_is_passed(a, s, token, to);
    let r = s.skip(1);
    assert forall|i: int| 0 <= i < r.len() implies #[trigger] r[i] != '{' by {
        if i + 1 < x.len() {
            assert(r[i] == x[i + 1]);
        } else {
            assert(r[i] == b[i + 1 - x.len()]);
        }
    }
    plain_text_stays(r, token, to);
    if text::begins(s, token) {
        assert(s.subrange(0, token.len() as int)[j] == s[j]);
        assert(s[j] == x[j]);
    }
    assert(s =~= seq![s[0]] + r);
}

/// The token that is looked for is replaced, and all that is around it stays.
proof fn the_token_is_replaced(a: Seq<char>, b: Seq<char>, token: Seq<char>, to: Seq<char>)
    requires
        token.len() > 0,
        token[0] == '{',
        forall|i: int| 0 <= i < a.len() ==> #[trigger] a[i] != '{',
        forall|i: int| 0 <= i < b.len() ==> #[trigger] b[i] != '{',
    ensures
        text::replaced(a + token + b, token, to) == a + to + b,
{
    let s = token + b;
    assert(a + token + b =~= a + s);
    plain_text_is_passed(a, s, token, to);
    assert(s.subrange(0, token.len() as int) =~= token);
    assert(s.skip(token.len() as int) =~= b);
    plain_text_stays(b, token, to);
    assert(a + (to + b) =~= a + to + b);
}

/// A pattern without tokens is kept as it is.
pub proof fn plain_patterns_stay(s: Seq<char>)
    requires
        forall|i: int| 0 <= i < s.len() ==> #[trigger] s[i] != '{',
    ensures
        template::translated(s) == s,
{
    reveal_strlit("{Track Title With Artist}");
    reveal_strlit("{track total:00}");
    reveal_strlit("{track total}");
    reveal_strlit("{medium total:00}");
    reveal_strlit("{medium total}");
    reveal_strlit("{track:000}");
    reveal_strlit("{track:00}");
    reveal_strlit("{medium:00}");
    reveal_strlit("{Medium Format}");
    reveal_strlit("{medium}");
    reveal_strlit("{Track Title}");
    reveal_strlit("{Recording Title}");
    reveal_strlit("{Album Title}");
    reveal_strlit("{Release Year}");
    reveal_strlit("{Release Date}");
    reveal_strlit("{Album Artist Name}");
    reveal_strlit("{Artist Name}");
    reveal_strlit("{Artists}");
    reveal_strlit("{Artist Disambiguation}");
    reveal_strlit("{Album Disambiguation}");
    reveal_strlit("{Label}");
    reveal_strlit("{Catalog Number}");
    reveal_strlit("{Track Title First Character}");
    plain_text_stays(s, "{Track Title With Artist}"@, "{artist} - {title}"@);
    plain_text_stays(s, "{track total:00}"@, "{trackTotal}"@);
    plain_text_stays(s, "{track total}"@, "{trackTotal}"@);
    plain_text_stays(s, "{medium total:00}"@, "{discTotal}"@);
    plain_text_stays(s, "{medium total}"@, "{discTotal}"@);
    plain_text_stays(s, "{track:000}"@, "{track:03}"@);
    plain_text_stays(s, "{track:00}"@, "{track:02}"@);
    plain_text_stays(s, "{medium:00}"@, "{disc:02}"@);
    plain_text_stays(s, "{Medium Format}"@, "{disc}"@);
    plain_text_stays(s, "{medium}"@, "{disc}"@);
    plain_text_stays(s, "{Track Title}"@, "{title}"@);
    plain_text_stays(s, "{Recording Title}"@, "{title}"@);
    plain_text_stays(s, "{Album Title}"@, "{album}"@);
    plain_text_stays(s, "{Release Year}"@, "{year}"@);
    plain_text_stays(s, "{Release Date}"@, "{year}"@);
    plain_text_stays(s, "{Album Artist Name}"@, "{albumArtist}"@);
    plain_text_stays(s, "{Artist Name}"@, "{albumArtist}"@);
    plain_text_stays(s, "{Artists}"@, "{artist}"@);
    plain_text_stays(s, "{Artist Disambiguation}"@, ""@);
    plain_text_stays(s, "{Album Disambiguation}"@, ""@);
    plain_text_stays(s, "{Label}"@, ""@);
    plain_text_stays(s, "{Catalog Number}"@, ""@);
    plain_text_stays(s, "{Track Title First Character}"@, ""@);
}

/// `{track total:00}` becomes `{trackTotal}`, and all that is around it stays.
pub proof fn the_number_of_tracks_with_two_digits_is_understood(a: Seq<char>, b: Seq<char>)
    requires
        forall|i: int| 0 <= i < a.len() ==> #[trigger] a[i] != '{',
        forall|i: int| 0 <= i < b.len() ==> #[trigger] b[i] != '{',
    ensures
        template::translated(a + "{track total:00}"@ + b) == a + "{trackTotal}"@ + b,
{
    reveal_strlit("{Track Title With Artist}");
    reveal_strlit("{track total:00}");
    reveal_strlit("{track total}");
    reveal_strlit("{medium total:00}");
    reveal_strlit("{medium total}");
    reveal_strlit("{track:000}");
    reveal_strlit("{track:00}");
    reveal_strlit("{medium:00}");
    reveal_strlit("{Medium Format}");
    reveal_strlit("{medium}");
    reveal_strlit("{Track Title}");
    reveal_strlit("{Recording Title}");
    reveal_strlit("{Album Title}");
    reveal_strlit("{Release Year}");
    reveal_strlit("{Release Date}");
    reveal_strlit("{Album Artist Name}");
    reveal_strlit("{Artist Name}");
    reveal_strlit("{Artists}");
    reveal_strlit("{Artist Disambiguation}");
    reveal_strlit("{Album Disambiguation}");
    reveal_strlit("{Label}");
    reveal_strlit("{Catalog Number}");
    reveal_strlit("{Track Title First Character}");
    reveal_strlit("{trackTotal}");
    assert("{track total:00}"@[1] != "{Track Title With Artist}"@[1]);
    other_tokens_stay(a, "{track total:00}"@, b, "{Track Title With Artist}"@, "{artist} - {title}"@, 1);
    the_token_is_replaced(a, b, "{track total:00}"@, "{trackTotal}"@);
    assert("{trackTotal}"@[6] != "{track total}"@[6]);
    other_tokens_stay(a, "{trackTotal}"@, b, "{track total}"@, "{trackTotal}"@, 6);
    assert("{trackTotal}"@[1] != "{medium total:00}"@[1]);
    other_tokens_stay(a, "{trackTotal}"@, b, "{medium total:00}"@, "{discTotal}"@, 1);
    assert("{trackTotal}"@[1] != "{medium total}"@[1]);
    other_tokens_stay(a, "{trackTotal}"@, b, "{medium total}"@, "{discTotal}"@, 1);
    assert("{trackTotal}"@[6] != "{track:000}"@[6]);
    other_tokens_stay(a, "{trackTotal}"@, b, "{track:000}"@, "{track:03}"@, 6);
    assert("{trackTotal}"@[6] != "{track:00}"@[6]);
    other_tokens_stay(a, "{trackTotal}"@, b, "{track:00}"@, "{track:02}"@, 6);
    assert("{trackTotal}"@[1] != "{medium:00}"@[1]);
    other_tokens_stay(a, "{trackTotal}"@, b, "{medium:00}"@, "{disc:02}"@, 1);
    assert("{trackTotal}"@[1] != "{Medium Format}"@[1]);
    other_tokens_stay(a, "{trackTotal}"@, b, "{Medium Format}"@, "{disc}"@, 1);
    assert("{trackTotal}"@[1] != "{medium}"@[1]);
    other_tokens_stay(a, "{trackTotal}"@, b, "{medium}"@, "{disc}"@, 1);
    assert("{trackTotal}"@[1] != "{Track Title}"@[1]);
    other_tokens_stay(a, "{trackTotal}"@, b, "{Track Title}"@, "{title}"@, 1);
    assert("{trackTotal}"@[1] != "{Recording Title}"@[1]);
    other_tokens_stay(a, "{trackTotal}"@, b, "{Recording Title}"@, "{title}"@, 1);
    assert("{trackTotal}"@[1] != "{Album Title}"@[1]);
    other_tokens_stay(a, "{trackTotal}"@, b, "{Album Title}"@, "{album}"@, 1);
    assert("{trackTotal}"@[1] != "{Release Year}"@[1]);
    other_tokens_stay(a, "{trackTotal}"@, b, "{Release Year}"@, "{year}"@, 1);
    assert("{trackTotal}"@[1] != "{Release Date}"@[1]);
    other_tokens_stay(a, "{trackTotal}"@, b, "{Release Date}"@, "{year}"@, 1);
    assert("{trackTotal}"@[1] != "{Album Artist Name}"@[1]);
    other_tokens_stay(a, "{trackTotal}"@, b, "{Album Artist Name}"@, "{albumArtist}"@, 1);
    assert("{trackTotal}"@[1] != "{Artist Name}"@[1]);
    other_tokens_stay(a, "{trackTotal}"@, b, "{Artist Name}"@, "{albumArtist}"@, 1);
    assert("{trackTotal}"@[1] != "{Artists}"@[1]);
    other_tokens_stay(a, "{trackTotal}"@, b, "{Artists}"@, "{artist}"@, 1);
    assert("{trackTotal}"@[1] != "{Artist Disambiguation}"@[1]);
    other_tokens_stay(a, "{trackTotal}"@, b, "{Artist Disambiguation}"@, ""@, 1);
    assert("{trackTotal}"@[1] != "{Album Disambiguation}"@[1]);
    other_tokens_stay(a, "{trackTotal}"@, b, "{Album Disambiguation}"@, ""@, 1);
    assert("{trackTotal}"@[1] != "{Label}"@[1]);
    other_tokens_stay(a, "{trackTotal}"@, b, "{Label}"@, ""@, 1);
    assert("{trackTotal}"@[1] != "{Catalog Number}"@[1]);
    other_tokens_stay(a, "{trackTotal}"@, b, "{Catalog Number}"@, ""@, 1);
    assert("{trackTotal}"@[1] != "{Track Title First Character}"@[1]);
    other_tokens_stay(a, "{trackTotal}"@, b, "{Track Title First Character}"@, ""@, 1);
}

/// `{track total}` becomes `{trackTotal}`, and all that is around it stays.
pub proof fn the_number_of_tracks_is_understood(a: Seq<char>, b: Seq<char>)
    requires
        forall|i: int| 0 <= i < a.len() ==> #[trigger] a[i] != '{',
        forall|i: int| 0 <= i < b.len() ==> #[trigger] b[i] != '{',
    ensures
        template::translated(a + "{track total}"@ + b) == a + "{trackTotal}"@ + b,
{
    reveal_strlit("{Track Title With Artist}");
    reveal_strlit("{track total:00}");
    reveal_strlit("{track total}");
    reveal_strlit("{medium total:00}");
    reveal_strlit("{medium total}");
    reveal_strlit("{track:000}");
    reveal_strlit("{track:00}");
    reveal_strlit("{medium:00}");
    reveal_strlit("{Medium Format}");
    reveal_strlit("{medium}");
    reveal_strlit("{Track Title}");
    reveal_strlit("{Recording Title}");
    reveal_strlit("{Album Title}");
    reveal_strlit("{Release Year}");
    reveal_strlit("{Release Date}");
    reveal_strlit("{Album Artist Name}");
    reveal_strlit("{Artist Name}");
    reveal_strlit("{Artists}");
    reveal_strlit("{Artist Disambiguation}");
    reveal_strlit("{Album Disambiguation}");
    reveal_strlit("{Label}");
    reveal_strlit("{Catalog Number}");
    reveal_strlit("{Track Title First Character}");
    reveal_strlit("{trackTotal}");
    assert("{track total}"@[1] != "{Track Title With Artist}"@[1]);
    other_tokens_stay(a, "{track total}"@, b, "{Track Title With Artist}"@, "{artist} - {title}"@, 1);
    assert("{track total}"@[12] != "{track total:00}"@[12]);
    other_tokens_stay(a, "{track total}"@, b, "{track total:00}"@, "{trackTotal}"@, 12);
    the_token_is_replaced(a, b, "{track total}"@, "{trackTotal}"@);
    assert("{trackTotal}"@[1] != "{medium total:00}"@[1]);
    other_tokens_stay(a, "{trackTotal}"@, b, "{medium total:00}"@, "{discTotal}"@, 1);
    assert("{trackTotal}"@[1] != "{medium total}"@[1]);
    other_tokens_stay(a, "{trackTotal}"@, b, "{medium total}"@, "{discTotal}"@, 1);
    assert("{trackTotal}"@[6] != "{track:000}"@[6]);
    other_tokens_stay(a, "{trackTotal}"@, b, "{track:000}"@, "{track:03}"@, 6);
    assert("{trackTotal}"@[6] != "{track:00}"@[6]);
    other_tokens_stay(a, "{trackTotal}"@, b, "{track:00}"@, "{track:02}"@, 6);
    assert("{trackTotal}"@[1] != "{medium:00}"@[1]);
    other_tokens_stay(a, "{trackTotal}"@, b, "{medium:00}"@, "{disc:02}"@, 1);
    assert("{trackTotal}"@[1] != "{Medium Format}"@[1]);
    other_tokens_stay(a, "{trackTotal}"@, b, "{Medium Format}"@, "{disc}"@, 1);
    assert("{trackTotal}"@[1] != "{medium}"@[1]);
    other_tokens_stay(a, "{trackTotal}"@, b, "{medium}"@, "{disc}"@, 1);
    assert("{trackTotal}"@[1] != "{Track Title}"@[1]);
    other_tokens_stay(a, "{trackTotal}"@, b, "{Track Title}"@, "{title}"@, 1);
    assert("{trackTotal}"@[1] != "{Recording Title}"@[1]);
    other_tokens_stay(a, "{trackTotal}"@, b, "{Recording Title}"@, "{title}"@, 1);
    assert("{trackTotal}"@[1] != "{Album Title}"@[1]);
    other_tokens_stay(a, "{trackTotal}"@, b, "{Album Title}"@, "{album}"@, 1);
    assert("{trackTotal}"@[1] != "{Release Year}"@[1]);
    other_tokens_stay(a, "{trackTotal}"@, b, "{Release Year}"@, "{year}"@, 1);
    assert("{trackTotal}"@[1] != "{Release Date}"@[1]);
    other_tokens_stay(a, "{trackTotal}"@, b, "{Release Date}"@, "{year}"@, 1);
    assert("{trackTotal}"@[1] != "{Album Artist Name}"@[1]);
    other_tokens_stay(a, "{trackTotal}"@, b, "{Album Artist Name}"@, "{albumArtist}"@, 1);
    assert("{trackTotal}"@[1] != "{Artist Name}"@[1]);
    other_tokens_stay(a, "{trackTotal}"@, b, "{Artist Name}"@, "{albumArtist}"@, 1);
    assert("{trackTotal}"@[1] != "{Artists}"@[1]);
    other_tokens_stay(a, "{trackTotal}"@, b, "{Artists}"@, "{artist}"@, 1);
    assert("{trackTotal}"@[1] != "{Artist Disambiguation}"@[1]);
    other_tokens_stay(a, "{trackTotal}"@, b, "{Artist Disambiguation}"@, ""@, 1);
    assert("{trackTotal}"@[1] != "{Album Disambiguation}"@[1]);
    other_tokens_stay(a, "{trackTotal}"@, b, "{Album Disambiguation}"@, ""@, 1);
    assert("{trackTotal}"@[1] != "{Label}"@[1]);
    other_tokens_stay(a, "{trackTotal}"@, b, "{Label}"@, ""@, 1);
    assert("{trackTotal}"@[1] != "{Catalog Number}"@[1]);
    other_tokens_stay(a, "{trackTotal}"@, b, "{Catalog Number}"@, ""@, 1);
    assert("{trackTotal}"@[1] != "{Track Title First Character}"@[1]);
    other_tokens_stay(a, "{trackTotal}"@, b, "{Track Title First Character}"@, ""@, 1);
}

/// `{medium total:00}` becomes `{discTotal}`, and all that is around it stays.
pub proof fn the_number_of_discs_with_two_digits_is_understood(a: Seq<char>, b: Seq<char>)
    requires
        forall|i: int| 0 <= i < a.len() ==> #[trigger] a[i] != '{',
        forall|i: int| 0 <= i < b.len() ==> #[trigger] b[i] != '{',
    ensures
        template::translated(a + "{medium total:00}"@ + b) == a + "{discTotal}"@ + b,
{
    reveal_strlit("{Track Title With Artist}");
    reveal_strlit("{track total:00}");
    reveal_strlit("{track total}");
    reveal_strlit("{medium total:00}");
    reveal_strlit("{medium total}");
    reveal_strlit("{track:000}");
    reveal_strlit("{track:00}");
    reveal_strlit("{medium:00}");
    reveal_strlit("{Medium Format}");
    reveal_strlit("{medium}");
    reveal_strlit("{Track Title}");
    reveal_strlit("{Recording Title}");
    reveal_strlit("{Album Title}");
    reveal_strlit("{Release Year}");
    reveal_strlit("{Release Date}");
    reveal_strlit("{Album Artist Name}");
    reveal_strlit("{Artist Name}");
    reveal_strlit("{Artists}");
    reveal_strlit("{Artist Disambiguation}");
    reveal_strlit("{Album Disambiguation}");
    reveal_strlit("{Label}");
    reveal_strlit("{Catalog Number}");
    reveal_strlit("{Track Title First Character}");
    reveal_strlit("{discTotal}");
    assert("{medium total:00}"@[1] != "{Track Title With Artist}"@[1]);
    other_tokens_stay(a, "{medium total:00}"@, b, "{Track Title With Artist}"@, "{artist} - {title}"@, 1);
    assert("{medium total:00}"@[1] != "{track total:00}"@[1]);
    other_tokens_stay(a, "{medium total:00}"@, b, "{track total:00}"@, "{trackTotal}"@, 1);
    assert("{medium total:00}"@[1] != "{track total}"@[1]);
    other_tokens_stay(a, "{medium total:00}"@, b, "{track total}"@, "{trackTotal}"@, 1);
    the_token_is_replaced(a, b, "{medium total:00}"@, "{discTotal}"@);
    assert("{discTotal}"@[1] != "{medium total}"@[1]);
    other_tokens_stay(a, "{discTotal}"@, b, "{medium total}"@, "{discTotal}"@, 1);
    assert("{discTotal}"@[1] != "{track:000}"@[1]);
    other_tokens_stay(a, "{discTotal}"@, b, "{track:000}"@, "{track:03}"@, 1);
    assert("{discTotal}"@[1] != "{track:00}"@[1]);
    other_tokens_stay(a, "{discTotal}"@, b, "{track:00}"@, "{track:02}"@, 1);
    assert("{discTotal}"@[1] != "{medium:00}"@[1]);
    other_tokens_stay(a, "{discTotal}"@, b, "{medium:00}"@, "{disc:02}"@, 1);
    assert("{discTotal}"@[1] != "{Medium Format}"@[1]);
    other_tokens_stay(a, "{discTotal}"@, b, "{Medium Format}"@, "{disc}"@, 1);
    assert("{discTotal}"@[1] != "{medium}"@[1]);
    other_tokens_stay(a, "{discTotal}"@, b, "{medium}"@, "{disc}"@, 1);
    assert("{discTotal}"@[1] != "{Track Title}"@[1]);
    other_tokens_stay(a, "{discTotal}"@, b, "{Track Title}"@, "{title}"@, 1);
    assert("{discTotal}"@[1] != "{Recording Title}"@[1]);
    other_tokens_stay(a, "{discTotal}"@, b, "{Recording Title}"@, "{title}"@, 1);
    assert("{discTotal}"@[1] != "{Album Title}"@[1]);
    other_tokens_stay(a, "{discTotal}"@, b, "{Album Title}"@, "{album}"@, 1);
    assert("{discTotal}"@[1] != "{Release Year}"@[1]);
    other_tokens_stay(a, "{discTotal}"@, b, "{Release Year}"@, "{year}"@, 1);
    assert("{discTotal}"@[1] != "{Release Date}"@[1]);
    other_tokens_stay(a, "{discTotal}"@, b, "{Release Date}"@, "{year}"@, 1);
    assert("{discTotal}"@[1] != "{Album Artist Name}"@[1]);
    other_tokens_stay(a, "{discTotal}"@, b, "{Album Artist Name}"@, "{albumArtist}"@, 1);
    assert("{discTotal}"@[1] != "{Artist Name}"@[1]);
    other_tokens_stay(a, "{discTotal}"@, b, "{Artist Name}"@, "{albumArtist}"@, 1);
    assert("{discTotal}"@[1] != "{Artists}"@[1]);
    other_tokens_stay(a, "{discTotal}"@, b, "{Artists}"@, "{artist}"@, 1);
    assert("{discTotal}"@[1] != "{Artist Disambiguation}"@[1]);
    other_tokens_stay(a, "{discTotal}"@, b, "{Artist Disambiguation}"@, ""@, 1);
    assert("{discTotal}"@[1] != "{Album Disambiguation}"@[1]);
    other_tokens_stay(a, "{discTotal}"@, b, "{Album Disambiguation}"@, ""@, 1);
    assert("{discTotal}"@[1] != "{Label}"@[1]);
    other_tokens_stay(a, "{discTotal}"@, b, "{Label}"@, ""@, 1);
    assert("{discTotal}"@[1] != "{Catalog Number}"@[1]);
    other_tokens_stay(a, "{discTotal}"@, b, "{Catalog Number}"@, ""@, 1);
    assert("{discTotal}"@[1] != "{Track Title First Character}"@[1]);
    other_tokens_stay(a, "{discTotal}"@, b, "{Track Title First Character}"@, ""@, 1);
}

/// `{medium total}` becomes `{discTotal}`, and all that is around it stays.
pub proof fn the_number_of_discs_is_understood(a: Seq<char>, b: Seq<char>)
    requires
        forall|i: int| 0 <= i < a.len() ==> #[trigger] a[i] != '{',
        forall|i: int| 0 <= i < b.len() ==> #[trigger] b[i] != '{',
    ensures
        template::translated(a + "{medium total}"@ + b) == a + "{discTotal}"@ + b,
{
    reveal_strlit("{Track Title With Artist}");
    reveal_strlit("{track total:00}");
    reveal_strlit("{track total}");
    reveal_strlit("{medium total:00}");
    reveal_strlit("{medium total}");
    reveal_strlit("{track:000}");
    reveal_strlit("{track:00}");
    reveal_strlit("{medium:00}");
    reveal_strlit("{Medium Format}");
    reveal_strlit("{medium}");
    reveal_strlit("{Track Title}");
    reveal_strlit("{Recording Title}");
    reveal_strlit("{Album Title}");
    reveal_strlit("{Release Year}");
    reveal_strlit("{Release Date}");
    reveal_strlit("{Album Artist Name}");
    reveal_strlit("{Artist Name}");
    reveal_strlit("{Artists}");
    reveal_strlit("{Artist Disambiguation}");
    reveal_strlit("{Album Disambiguation}");
    reveal_strlit("{Label}");
    reveal_strlit("{Catalog Number}");
    reveal_strlit("{Track Title First Character}");
    reveal_strlit("{discTotal}");
    assert("{medium total}"@[1] != "{Track Title With Artist}"@[1]);
    other_tokens_stay(a, "{medium total}"@, b, "{Track Title With Artist}"@, "{artist} - {title}"@, 1);
    assert("{medium total}"@[1] != "{track total:00}"@[1]);
    other_tokens_stay(a, "{medium total}"@, b, "{track total:00}"@, "{trackTotal}"@, 1);
    assert("{medium total}"@[1] != "{track total}"@[1]);
    other_tokens_stay(a, "{medium total}"@, b, "{track total}"@, "{trackTotal}"@, 1);
    assert("{medium total}"@[13] != "{medium total:00}"@[13]);
    other_tokens_stay(a, "{medium total}"@, b, "{medium total:00}"@, "{discTotal}"@, 13);
    the_token_is_replaced(a, b, "{medium total}"@, "{discTotal}"@);
    assert("{discTotal}"@[1] != "{track:000}"@[1]);
    other_tokens_stay(a, "{discTotal}"@, b, "{track:000}"@, "{track:03}"@, 1);
    assert("{discTotal}"@[1] != "{track:00}"@[1]);
    other_tokens_stay(a, "{discTotal}"@, b, "{track:00}"@, "{track:02}"@, 1);
    assert("{discTotal}"@[1] != "{medium:00}"@[1]);
    other_tokens_stay(a, "{discTotal}"@, b, "{medium:00}"@, "{disc:02}"@, 1);
    assert("{discTotal}"@[1] != "{Medium Format}"@[1]);
    other_tokens_stay(a, "{discTotal}"@, b, "{Medium Format}"@, "{disc}"@, 1);
    assert("{discTotal}"@[1] != "{medium}"@[1]);
    other_tokens_stay(a, "{discTotal}"@, b, "{medium}"@, "{disc}"@, 1);
    assert("{discTotal}"@[1] != "{Track Title}"@[1]);
    other_tokens_stay(a, "{discTotal}"@, b, "{Track Title}"@, "{title}"@, 1);
    assert("{discTotal}"@[1] != "{Recording Title}"@[1]);
    other_tokens_stay(a, "{discTotal}"@, b, "{Recording Title}"@, "{title}"@, 1);
    assert("{discTotal}"@[1] != "{Album Title}"@[1]);
    other_tokens_stay(a, "{discTotal}"@, b, "{Album Title}"@, "{album}"@, 1);
    assert("{discTotal}"@[1] != "{Release Year}"@[1]);
    other_tokens_stay(a, "{discTotal}"@, b, "{Release Year}"@, "{year}"@, 1);
    assert("{discTotal}"@[1] != "{Release Date}"@[1]);
    other_tokens_stay(a, "{discTotal}"@, b, "{Release Date}"@, "{year}"@, 1);
    assert("{discTotal}"@[1] != "{Album Artist Name}"@[1]);
    other_tokens_stay(a, "{discTotal}"@, b, "{Album Artist Name}"@, "{albumArtist}"@, 1);
    assert("{discTotal}"@[1] != "{Artist Name}"@[1]);
    other_tokens_stay(a, "{discTotal}"@, b, "{Artist Name}"@, "{albumArtist}"@, 1);
    assert("{discTotal}"@[1] != "{Artists}"@[1]);
    other_tokens_stay(a, "{discTotal}"@, b, "{Artists}"@, "{artist}"@, 1);
    assert("{discTotal}"@[1] != "{Artist Disambiguation}"@[1]);
    other_tokens_stay(a, "{discTotal}"@, b, "{Artist Disambiguation}"@, ""@, 1);
    assert("{discTotal}"@[1] != "{Album Disambiguation}"@[1]);
    other_tokens_stay(a, "{discTotal}"@, b, "{Album Disambiguation}"@, ""@, 1);
    assert("{discTotal}"@[1] != "{Label}"@[1]);
    other_tokens_stay(a, "{discTotal}"@, b, "{Label}"@, ""@, 1);
    assert("{discTotal}"@[1] != "{Catalog Number}"@[1]);
    other_tokens_stay(a, "{discTotal}"@, b, "{Catalog Number}"@, ""@, 1);
    assert("{discTotal}"@[1] != "{Track Title First Character}"@[1]);
    other_tokens_stay(a, "{discTotal}"@, b, "{Track Title First Character}"@, ""@, 1);
}

/// `{track:000}` becomes `{track:03}`, and all that is around it stays.
pub proof fn the_track_with_three_digits_is_understood(a: Seq<char>, b: Seq<char>)
    requires
        forall|i: int| 0 <= i < a.len() ==> #[trigger] a[i] != '{',
        forall|i: int| 0 <= i < b.len() ==> #[trigger] b[i] != '{',
    ensures
        template::translated(a + "{track:000}"@ + b) == a + "{track:03}"@ + b,
{
    reveal_strlit("{Track Title With Artist}");
    reveal_strlit("{track total:00}");
    reveal_strlit("{track total}");
    reveal_strlit("{medium total:00}");
    reveal_strlit("{medium total}");
    reveal_strlit("{track:000}");
    reveal_strlit("{track:00}");
    reveal_strlit("{medium:00}");
    reveal_strlit("{Medium Format}");
    reveal_strlit("{medium}");
    reveal_strlit("{Track Title}");
    reveal_strlit("{Recording Title}");
    reveal_strlit("{Album Title}");
    reveal_strlit("{Release Year}");
    reveal_strlit("{Release Date}");
    reveal_strlit("{Album Artist Name}");
    reveal_strlit("{Artist Name}");
    reveal_strlit("{Artists}");
    reveal_strlit("{Artist Disambiguation}");
    reveal_strlit("{Album Disambiguation}");
    reveal_strlit("{Label}");
    reveal_strlit("{Catalog Number}");
    reveal_strlit("{Track Title First Character}");
    reveal_strlit("{track:03}");
    assert("{track:000}"@[1] != "{Track Title With Artist}"@[1]);
    other_tokens_stay(a, "{track:000}"@, b, "{Track Title With Artist}"@, "{artist} - {title}"@, 1);
    assert("{track:000}"@[6] != "{track total:00}"@[6]);
    other_tokens_stay(a, "{track:000}"@, b, "{track total:00}"@, "{trackTotal}"@, 6);
    assert("{track:000}"@[6] != "{track total}"@[6]);
    other_tokens_stay(a, "{track:000}"@, b, "{track total}"@, "{trackTotal}"@, 6);
    assert("{track:000}"@[1] != "{medium total:00}"@[1]);
    other_tokens_stay(a, "{track:000}"@, b, "{medium total:00}"@, "{discTotal}"@, 1);
    assert("{track:000}"@[1] != "{medium total}"@[1]);
    other_tokens_stay(a, "{track:000}"@, b, "{medium total}"@, "{discTotal}"@, 1);
    the_token_is_replaced(a, b, "{track:000}"@, "{track:03}"@);
    assert("{track:03}"@[8] != "{track:00}"@[8]);
    other_tokens_stay(a, "{track:03}"@, b, "{track:00}"@, "{track:02}"@, 8);
    assert("{track:03}"@[1] != "{medium:00}"@[1]);
    other_tokens_stay(a, "{track:03}"@, b, "{medium:00}"@, "{disc:02}"@, 1);
    assert("{track:03}"@[1] != "{Medium Format}"@[1]);
    other_tokens_stay(a, "{track:03}"@, b, "{Medium Format}"@, "{disc}"@, 1);
    assert("{track:03}"@[1] != "{medium}"@[1]);
    other_tokens_stay(a, "{track:03}"@, b, "{medium}"@, "{disc}"@, 1);
    assert("{track:03}"@[1] != "{Track Title}"@[1]);
    other_tokens_stay(a, "{track:03}"@, b, "{Track Title}"@, "{title}"@, 1);
    assert("{track:03}"@[1] != "{Recording Title}"@[1]);
    other_tokens_stay(a, "{track:03}"@, b, "{Recording Title}"@, "{title}"@, 1);
    assert("{track:03}"@[1] != "{Album Title}"@[1]);
    other_tokens_stay(a, "{track:03}"@, b, "{Album Title}"@, "{album}"@, 1);
    assert("{track:03}"@[1] != "{Release Year}"@[1]);
    other_tokens_stay(a, "{track:03}"@, b, "{Release Year}"@, "{year}"@, 1);
    assert("{track:03}"@[1] != "{Release Date}"@[1]);
    other_tokens_stay(a, "{track:03}"@, b, "{Release Date}"@, "{year}"@, 1);
    assert("{track:03}"@[1] != "{Album Artist Name}"@[1]);
    other_tokens_stay(a, "{track:03}"@, b, "{Album Artist Name}"@, "{albumArtist}"@, 1);
    assert("{track:03}"@[1] != "{Artist Name}"@[1]);
    other_tokens_stay(a, "{track:03}"@, b, "{Artist Name}"@, "{albumArtist}"@, 1);
    assert("{track:03}"@[1] != "{Artists}"@[1]);
    other_tokens_stay(a, "{track:03}"@, b, "{Artists}"@, "{artist}"@, 1);
    assert("{track:03}"@[1] != "{Artist Disambiguation}"@[1]);
    other_tokens_stay(a, "{track:03}"@, b, "{Artist Disambiguation}"@, ""@, 1);
    assert("{track:03}"@[1] != "{Album Disambiguation}"@[1]);
    other_tokens_stay(a, "{track:03}"@, b, "{Album Disambiguation}"@, ""@, 1);
    assert("{track:03}"@[1] != "{Label}"@[1]);
    other_tokens_stay(a, "{track:03}"@, b, "{Label}"@, ""@, 1);
    assert("{track:03}"@[1] != "{Catalog Number}"@[1]);
    other_tokens_stay(a, "{track:03}"@, b, "{Catalog Number}"@, ""@, 1);
    assert("{track:03}"@[1] != "{Track Title First Character}"@[1]);
    other_tokens_stay(a, "{track:03}"@, b, "{Track Title First Character}"@, ""@, 1);
}

/// `{track:00}` becomes `{track:02}`, and all that is around it stays.
pub proof fn the_track_with_two_digits_is_understood(a: Seq<char>, b: Seq<char>)
    requires
        forall|i: int| 0 <= i < a.len() ==> #[trigger] a[i] != '{',
        forall|i: int| 0 <= i < b.len() ==> #[trigger] b[i] != '{',
    ensures
        template::translated(a + "{track:00}"@ + b) == a + "{track:02}"@ + b,
{
    reveal_strlit("{Track Title With Artist}");
    reveal_strlit("{track total:00}");
    reveal_strlit("{track total}");
    reveal_strlit("{medium total:00}");
    reveal_strlit("{medium total}");
    reveal_strlit("{track:000}");
    reveal_strlit("{track:00}");
    reveal_strlit("{medium:00}");
    reveal_strlit("{Medium Format}");
    reveal_strlit("{medium}");
    reveal_strlit("{Track Title}");
    reveal_strlit("{Recording Title}");
    reveal_strlit("{Album Title}");
    reveal_strlit("{Release Year}");
    reveal_strlit("{Release Date}");
    reveal_strlit("{Album Artist Name}");
    reveal_strlit("{Artist Name}");
    reveal_strlit("{Artists}");
    reveal_strlit("{Artist Disambiguation}");
    reveal_strlit("{Album Disambiguation}");
    reveal_strlit("{Label}");
    reveal_strlit("{Catalog Number}");
    reveal_strlit("{Track Title First Character}");
    reveal_strlit("{track:02}");
    assert("{track:00}"@[1] != "{Track Title With Artist}"@[1]);
    other_tokens_stay(a, "{track:00}"@, b, "{Track Title With Artist}"@, "{artist} - {title}"@, 1);
    assert("{track:00}"@[6] != "{track total:00}"@[6]);
    other_tokens_stay(a, "{track:00}"@, b, "{track total:00}"@, "{trackTotal}"@, 6);
    assert("{track:00}"@[6] != "{track total}"@[6]);
    other_tokens_stay(a, "{track:00}"@, b, "{track total}"@, "{trackTotal}"@, 6);
    assert("{track:00}"@[1] != "{medium total:00}"@[1]);
    other_tokens_stay(a, "{track:00}"@, b, "{medium total:00}"@, "{discTotal}"@, 1);
    assert("{track:00}"@[1] != "{medium total}"@[1]);
    other_tokens_stay(a, "{track:00}"@, b, "{medium total}"@, "{discTotal}"@, 1);
    assert("{track:00}"@[9] != "{track:000}"@[9]);
    other_tokens_stay(a, "{track:00}"@, b, "{track:000}"@, "{track:03}"@, 9);
    the_token_is_replaced(a, b, "{track:00}"@, "{track:02}"@);
    assert("{track:02}"@[1] != "{medium:00}"@[1]);
    other_tokens_stay(a, "{track:02}"@, b, "{medium:00}"@, "{disc:02}"@, 1);
    assert("{track:02}"@[1] != "{Medium Format}"@[1]);
    other_tokens_stay(a, "{track:02}"@, b, "{Medium Format}"@, "{disc}"@, 1);
    assert("{track:02}"@[1] != "{medium}"@[1]);
    other_tokens_stay(a, "{track:02}"@, b, "{medium}"@, "{disc}"@, 1);
    assert("{track:02}"@[1] != "{Track Title}"@[1]);
    other_tokens_stay(a, "{track:02}"@, b, "{Track Title}"@, "{title}"@, 1);
    assert("{track:02}"@[1] != "{Recording Title}"@[1]);
    other_tokens_stay(a, "{track:02}"@, b, "{Recording Title}"@, "{title}"@, 1);
    assert("{track:02}"@[1] != "{Album Title}"@[1]);
    other_tokens_stay(a, "{track:02}"@, b, "{Album Title}"@, "{album}"@, 1);
    assert("{track:02}"@[1] != "{Release Year}"@[1]);
    other_tokens_stay(a, "{track:02}"@, b, "{Release Year}"@, "{year}"@, 1);
    assert("{track:02}"@[1] != "{Release Date}"@[1]);
    other_tokens_stay(a, "{track:02}"@, b, "{Release Date}"@, "{year}"@, 1);
    assert("{track:02}"@[1] != "{Album Artist Name}"@[1]);
    other_tokens_stay(a, "{track:02}"@, b, "{Album Artist Name}"@, "{albumArtist}"@, 1);
    assert("{track:02}"@[1] != "{Artist Name}"@[1]);
    other_tokens_stay(a, "{track:02}"@, b, "{Artist Name}"@, "{albumArtist}"@, 1);
    assert("{track:02}"@[1] != "{Artists}"@[1]);
    other_tokens_stay(a, "{track:02}"@, b, "{Artists}"@, "{artist}"@, 1);
    assert("{track:02}"@[1] != "{Artist Disambiguation}"@[1]);
    other_tokens_stay(a, "{track:02}"@, b, "{Artist Disambiguation}"@, ""@, 1);
    assert("{track:02}"@[1] != "{Album Disambiguation}"@[1]);
    other_tokens_stay(a, "{track:02}"@, b, "{Album Disambiguation}"@, ""@, 1);
    assert("{track:02}"@[1] != "{Label}"@[1]);
    other_tokens_stay(a, "{track:02}"@, b, "{Label}"@, ""@, 1);
    assert("{track:02}"@[1] != "{Catalog Number}"@[1]);
    other_tokens_stay(a, "{track:02}"@, b, "{Catalog Number}"@, ""@, 1);
    assert("{track:02}"@[1] != "{Track Title First Character}"@[1]);
    other_tokens_stay(a, "{track:02}"@, b, "{Track Title First Character}"@, ""@, 1);
}

/// `{medium:00}` becomes `{disc:02}`, and all that is around it stays.
pub proof fn the_disc_with_two_digits_is_understood(a: Seq<char>, b: Seq<char>)
    requires
        forall|i: int| 0 <= i < a.len() ==> #[trigger] a[i] != '{',
        forall|i: int| 0 <= i < b.len() ==> #[trigger] b[i] != '{',
    ensures
        template::translated(a + "{medium:00}"@ + b) == a + "{disc:02}"@ + b,
{
    reveal_strlit("{Track Title With Artist}");
    reveal_strlit("{track total:00}");
    reveal_strlit("{track total}");
    reveal_strlit("{medium total:00}");
    reveal_strlit("{medium total}");
    reveal_strlit("{track:000}");
    reveal_strlit("{track:00}");
    reveal_strlit("{medium:00}");
    reveal_strlit("{Medium Format}");
    reveal_strlit("{medium}");
    reveal_strlit("{Track Title}");
    reveal_strlit("{Recording Title}");
    reveal_strlit("{Album Title}");
    reveal_strlit("{Release Year}");
    reveal_strlit("{Release Date}");
    reveal_strlit("{Album Artist Name}");
    reveal_strlit("{Artist Name}");
    reveal_strlit("{Artists}");
    reveal_strlit("{Artist Disambiguation}");
    reveal_strlit("{Album Disambiguation}");
    reveal_strlit("{Label}");
    reveal_strlit("{Catalog Number}");
    reveal_strlit("{Track Title First Character}");
    reveal_strlit("{disc:02}");
    assert("{medium:00}"@[1] != "{Track Title With Artist}"@[1]);
    other_tokens_stay(a, "{medium:00}"@, b, "{Track Title With Artist}"@, "{artist} - {title}"@, 1);
    assert("{medium:00}"@[1] != "{track total:00}"@[1]);
    other_tokens_stay(a, "{medium:00}"@, b, "{track total:00}"@, "{trackTotal}"@, 1);
    assert("{medium:00}"@[1] != "{track total}"@[1]);
    other_tokens_stay(a, "{medium:00}"@, b, "{track total}"@, "{trackTotal}"@, 1);
    assert("{medium:00}"@[7] != "{medium total:00}"@[7]);
    other_tokens_stay(a, "{medium:00}"@, b, "{medium total:00}"@, "{discTotal}"@, 7);
    assert("{medium:00}"@[7] != "{medium total}"@[7]);
    other_tokens_stay(a, "{medium:00}"@, b, "{medium total}"@, "{discTotal}"@, 7);
    assert("{medium:00}"@[1] != "{track:000}"@[1]);
    other_tokens_stay(a, "{medium:00}"@, b, "{track:000}"@, "{track:03}"@, 1);
    assert("{medium:00}"@[1] != "{track:00}"@[1]);
    other_tokens_stay(a, "{medium:00}"@, b, "{track:00}"@, "{track:02}"@, 1);
    the_token_is_replaced(a, b, "{medium:00}"@, "{disc:02}"@);
    assert("{disc:02}"@[1] != "{Medium Format}"@[1]);
    other_tokens_stay(a, "{disc:02}"@, b, "{Medium Format}"@, "{disc}"@, 1);
    assert("{disc:02}"@[1] != "{medium}"@[1]);
    other_tokens_stay(a, "{disc:02}"@, b, "{medium}"@, "{disc}"@, 1);
    assert("{disc:02}"@[1] != "{Track Title}"@[1]);
    other_tokens_stay(a, "{disc:02}"@, b, "{Track Title}"@, "{title}"@, 1);
    assert("{disc:02}"@[1] != "{Recording Title}"@[1]);
    other_tokens_stay(a, "{disc:02}"@, b, "{Recording Title}"@, "{title}"@, 1);
    assert("{disc:02}"@[1] != "{Album Title}"@[1]);
    other_tokens_stay(a, "{disc:02}"@, b, "{Album Title}"@, "{album}"@, 1);
    assert("{disc:02}"@[1] != "{Release Year}"@[1]);
    other_tokens_stay(a, "{disc:02}"@, b, "{Release Year}"@, "{year}"@, 1);
    assert("{disc:02}"@[1] != "{Release Date}"@[1]);
    other_tokens_stay(a, "{disc:02}"@, b, "{Release Date}"@, "{year}"@, 1);
    assert("{disc:02}"@[1] != "{Album Artist Name}"@[1]);
    other_tokens_stay(a, "{disc:02}"@, b, "{Album Artist Name}"@, "{albumArtist}"@, 1);
    assert("{disc:02}"@[1] != "{Artist Name}"@[1]);
    other_tokens_stay(a, "{disc:02}"@, b, "{Artist Name}"@, "{albumArtist}"@, 1);
    assert("{disc:02}"@[1] != "{Artists}"@[1]);
    other_tokens_stay(a, "{disc:02}"@, b, "{Artists}"@, "{artist}"@, 1);
    assert("{disc:02}"@[1] != "{Artist Disambiguation}"@[1]);
    other_tokens_stay(a, "{disc:02}"@, b, "{Artist Disambiguation}"@, ""@, 1);
    assert("{disc:02}"@[1] != "{Album Disambiguation}"@[1]);
    other_tokens_stay(a, "{disc:02}"@, b, "{Album Disambiguation}"@, ""@, 1);
    assert("{disc:02}"@[1] != "{Label}"@[1]);
    other_tokens_stay(a, "{disc:02}"@, b, "{Label}"@, ""@, 1);
    assert("{disc:02}"@[1] != "{Catalog Number}"@[1]);
    other_tokens_stay(a, "{disc:02}"@, b, "{Catalog Number}"@, ""@, 1);
    assert("{disc:02}"@[1] != "{Track Title First Character}"@[1]);
    other_tokens_stay(a, "{disc:02}"@, b, "{Track Title First Character}"@, ""@, 1);
}

/// `{Medium Format}` becomes `{disc}`, and all that is around it stays.
pub proof fn the_medium_is_understood(a: Seq<char>, b: Seq<char>)
    requires
        forall|i: int| 0 <= i < a.len() ==> #[trigger] a[i] != '{',
        forall|i: int| 0 <= i < b.len() ==> #[trigger] b[i] != '{',
    ensures
        template::translated(a + "{Medium Format}"@ + b) == a + "{disc}"@ + b,
{
    reveal_strlit("{Track Title With Artist}");
    reveal_strlit("{track total:00}");
    reveal_strlit("{track total}");
    reveal_strlit("{medium total:00}");
    reveal_strlit("{medium total}");
    reveal_strlit("{track:000}");
    reveal_strlit("{track:00}");
    reveal_strlit("{medium:00}");
    reveal_strlit("{Medium Format}");
    reveal_strlit("{medium}");
    reveal_strlit("{Track Title}");
    reveal_strlit("{Recording Title}");
    reveal_strlit("{Album Title}");
    reveal_strlit("{Release Year}");
    reveal_strlit("{Release Date}");
    reveal_strlit("{Album Artist Name}");
    reveal_strlit("{Artist Name}");
    reveal_strlit("{Artists}");
    reveal_strlit("{Artist Disambiguation}");
    reveal_strlit("{Album Disambiguation}");
    reveal_strlit("{Label}");
    reveal_strlit("{Catalog Number}");
    reveal_strlit("{Track Title First Character}");
    reveal_strlit("{disc}");
    assert("{Medium Format}"@[1] != "{Track Title With Artist}"@[1]);
    other_tokens_stay(a, "{Medium Format}"@, b, "{Track Title With Artist}"@, "{artist} - {title}"@, 1);
    assert("{Medium Format}"@[1] != "{track total:00}"@[1]);
    other_tokens_stay(a, "{Medium Format}"@, b, "{track total:00}"@, "{trackTotal}"@, 1);
    assert("{Medium Format}"@[1] != "{track total}"@[1]);
    other_tokens_stay(a, "{Medium Format}"@, b, "{track total}"@, "{trackTotal}"@, 1);
    assert("{Medium Format}"@[1] != "{medium total:00}"@[1]);
    other_tokens_stay(a, "{Medium Format}"@, b, "{medium total:00}"@, "{discTotal}"@, 1);
    assert("{Medium Format}"@[1] != "{medium total}"@[1]);
    other_tokens_stay(a, "{Medium Format}"@, b, "{medium total}"@, "{discTotal}"@, 1);
    assert("{Medium Format}"@[1] != "{track:000}"@[1]);
    other_tokens_stay(a, "{Medium Format}"@, b, "{track:000}"@, "{track:03}"@, 1);
    assert("{Medium Format}"@[1] != "{track:00}"@[1]);
    other_tokens_stay(a, "{Medium Format}"@, b, "{track:00}"@, "{track:02}"@, 1);
    assert("{Medium Format}"@[1] != "{medium:00}"@[1]);
    other_tokens_stay(a, "{Medium Format}"@, b, "{medium:00}"@, "{disc:02}"@, 1);
    the_token_is_replaced(a, b, "{Medium Format}"@, "{disc}"@);
    assert("{disc}"@[1] != "{medium}"@[1]);
    other_tokens_stay(a, "{disc}"@, b, "{medium}"@, "{disc}"@, 1);
    assert("{disc}"@[1] != "{Track Title}"@[1]);
    other_tokens_stay(a, "{disc}"@, b, "{Track Title}"@, "{title}"@, 1);
    assert("{disc}"@[1] != "{Recording Title}"@[1]);
    other_tokens_stay(a, "{disc}"@, b, "{Recording Title}"@, "{title}"@, 1);
    assert("{disc}"@[1] != "{Album Title}"@[1]);
    other_tokens_stay(a, "{disc}"@, b, "{Album Title}"@, "{album}"@, 1);
    assert("{disc}"@[1] != "{Release Year}"@[1]);
    other_tokens_stay(a, "{disc}"@, b, "{Release Year}"@, "{year}"@, 1);
    assert("{disc}"@[1] != "{Release Date}"@[1]);
    other_tokens_stay(a, "{disc}"@, b, "{Release Date}"@, "{year}"@, 1);
    assert("{disc}"@[1] != "{Album Artist Name}"@[1]);
    other_tokens_stay(a, "{disc}"@, b, "{Album Artist Name}"@, "{albumArtist}"@, 1);
    assert("{disc}"@[1] != "{Artist Name}"@[1]);
    other_tokens_stay(a, "{disc}"@, b, "{Artist Name}"@, "{albumArtist}"@, 1);
    assert("{disc}"@[1] != "{Artists}"@[1]);
    other_tokens_stay(a, "{disc}"@, b, "{Artists}"@, "{artist}"@, 1);
    assert("{disc}"@[1] != "{Artist Disambiguation}"@[1]);
    other_tokens_stay(a, "{disc}"@, b, "{Artist Disambiguation}"@, ""@, 1);
    assert("{disc}"@[1] != "{Album Disambiguation}"@[1]);
    other_tokens_stay(a, "{disc}"@, b, "{Album Disambiguation}"@, ""@, 1);
    assert("{disc}"@[1] != "{Label}"@[1]);
    other_tokens_stay(a, "{disc}"@, b, "{Label}"@, ""@, 1);
    assert("{disc}"@[1] != "{Catalog Number}"@[1]);
    other_tokens_stay(a, "{disc}"@, b, "{Catalog Number}"@, ""@, 1);
    assert("{disc}"@[1] != "{Track Title First Character}"@[1]);
    other_tokens_stay(a, "{disc}"@, b, "{Track Title First Character}"@, ""@, 1);
}

/// `{medium}` becomes `{disc}`, and all that is around it stays.
pub proof fn the_disc_is_understood(a: Seq<char>, b: Seq<char>)
    requires
        forall|i: int| 0 <= i < a.len() ==> #[trigger] a[i] != '{',
        forall|i: int| 0 <= i < b.len() ==> #[trigger] b[i] != '{',
    ensures
        template::translated(a + "{medium}"@ + b) == a + "{disc}"@ + b,
{
    reveal_strlit("{Track Title With Artist}");
    reveal_strlit("{track total:00}");
    reveal_strlit("{track total}");
    reveal_strlit("{medium total:00}");
    reveal_strlit("{medium total}");
    reveal_strlit("{track:000}");
    reveal_strlit("{track:00}");
    reveal_strlit("{medium:00}");
    reveal_strlit("{Medium Format}");
    reveal_strlit("{medium}");
    reveal_strlit("{Track Title}");
    reveal_strlit("{Recording Title}");
    reveal_strlit("{Album Title}");
    reveal_strlit("{Release Year}");
    reveal_strlit("{Release Date}");
    reveal_strlit("{Album Artist Name}");
    reveal_strlit("{Artist Name}");
    reveal_strlit("{Artists}");
    reveal_strlit("{Artist Disambiguation}");
    reveal_strlit("{Album Disambiguation}");
    reveal_strlit("{Label}");
    reveal_strlit("{Catalog Number}");
    reveal_strlit("{Track Title First Character}");
    reveal_strlit("{disc}");
    assert("{medium}"@[1] != "{Track Title With Artist}"@[1]);
    other_tokens_stay(a, "{medium}"@, b, "{Track Title With Artist}"@, "{artist} - {title}"@, 1);
    assert("{medium}"@[1] != "{track total:00}"@[1]);
    other_tokens_stay(a, "{medium}"@, b, "{track total:00}"@, "{trackTotal}"@, 1);
    assert("{medium}"@[1] != "{track total}"@[1]);
    other_tokens_stay(a, "{medium}"@, b, "{track total}"@, "{trackTotal}"@, 1);
    assert("{medium}"@[7] != "{medium total:00}"@[7]);
    other_tokens_stay(a, "{medium}"@, b, "{medium total:00}"@, "{discTotal}"@, 7);
    assert("{medium}"@[7] != "{medium total}"@[7]);
    other_tokens_stay(a, "{medium}"@, b, "{medium total}"@, "{discTotal}"@, 7);
    assert("{medium}"@[1] != "{track:000}"@[1]);
    other_tokens_stay(a, "{medium}"@, b, "{track:000}"@, "{track:03}"@, 1);
    assert("{medium}"@[1] != "{track:00}"@[1]);
    other_tokens_stay(a, "{medium}"@, b, "{track:00}"@, "{track:02}"@, 1);
    assert("{medium}"@[7] != "{medium:00}"@[7]);
    other_tokens_stay(a, "{medium}"@, b, "{medium:00}"@, "{disc:02}"@, 7);
    assert("{medium}"@[1] != "{Medium Format}"@[1]);
    other_tokens_stay(a, "{medium}"@, b, "{Medium Format}"@, "{disc}"@, 1);
    the_token_is_replaced(a, b, "{medium}"@, "{disc}"@);
    assert("{disc}"@[1] != "{Track Title}"@[1]);
    other_tokens_stay(a, "{disc}"@, b, "{Track Title}"@, "{title}"@, 1);
    assert("{disc}"@[1] != "{Recording Title}"@[1]);
    other_tokens_stay(a, "{disc}"@, b, "{Recording Title}"@, "{title}"@, 1);
    assert("{disc}"@[1] != "{Album Title}"@[1]);
    other_tokens_stay(a, "{disc}"@, b, "{Album Title}"@, "{album}"@, 1);
    assert("{disc}"@[1] != "{Release Year}"@[1]);
    other_tokens_stay(a, "{disc}"@, b, "{Release Year}"@, "{year}"@, 1);
    assert("{disc}"@[1] != "{Release Date}"@[1]);
    other_tokens_stay(a, "{disc}"@, b, "{Release Date}"@, "{year}"@, 1);
    assert("{disc}"@[1] != "{Album Artist Name}"@[1]);
    other_tokens_stay(a, "{disc}"@, b, "{Album Artist Name}"@, "{albumArtist}"@, 1);
    assert("{disc}"@[1] != "{Artist Name}"@[1]);
    other_tokens_stay(a, "{disc}"@, b, "{Artist Name}"@, "{albumArtist}"@, 1);
    assert("{disc}"@[1] != "{Artists}"@[1]);
    other_tokens_stay(a, "{disc}"@, b, "{Artists}"@, "{artist}"@, 1);
    assert("{disc}"@[1] != "{Artist Disambiguation}"@[1]);
    other_tokens_stay(a, "{disc}"@, b, "{Artist Disambiguation}"@, ""@, 1);
    assert("{disc}"@[1] != "{Album Disambiguation}"@[1]);
    other_tokens_stay(a, "{disc}"@, b, "{Album Disambiguation}"@, ""@, 1);
    assert("{disc}"@[1] != "{Label}"@[1]);
    other_tokens_stay(a, "{disc}"@, b, "{Label}"@, ""@, 1);
    assert("{disc}"@[1] != "{Catalog Number}"@[1]);
    other_tokens_stay(a, "{disc}"@, b, "{Catalog Number}"@, ""@, 1);
    assert("{disc}"@[1] != "{Track Title First Character}"@[1]);
    other_tokens_stay(a, "{disc}"@, b, "{Track Title First Character}"@, ""@, 1);
}

/// `{Track Title}` becomes `{title}`, and all that is around it stays.
pub proof fn the_title_is_understood(a: Seq<char>, b: Seq<char>)
    requires
        forall|i: int| 0 <= i < a.len() ==> #[trigger] a[i] != '{',
        forall|i: int| 0 <= i < b.len() ==> #[trigger] b[i] != '{',
    ensures
        template::translated(a + "{Track Title}"@ + b) == a + "{title}"@ + b,
{
    reveal_strlit("{Track Title With Artist}");
    reveal_strlit("{track total:00}");
    reveal_strlit("{track total}");
    reveal_strlit("{medium total:00}");
    reveal_strlit("{medium total}");
    reveal_strlit("{track:000}");
    reveal_strlit("{track:00}");
    reveal_strlit("{medium:00}");
    reveal_strlit("{Medium Format}");
    reveal_strlit("{medium}");
    reveal_strlit("{Track Title}");
    reveal_strlit("{Recording Title}");
    reveal_strlit("{Album Title}");
    reveal_strlit("{Release Year}");
    reveal_strlit("{Release Date}");
    reveal_strlit("{Album Artist Name}");
    reveal_strlit("{Artist Name}");
    reveal_strlit("{Artists}");
    reveal_strlit("{Artist Disambiguation}");
    reveal_strlit("{Album Disambiguation}");
    reveal_strlit("{Label}");
    reveal_strlit("{Catalog Number}");
    reveal_strlit("{Track Title First Character}");
    reveal_strlit("{title}");
    assert("{Track Title}"@[12] != "{Track Title With Artist}"@[12]);
    other_tokens_stay(a, "{Track Title}"@, b, "{Track Title With Artist}"@, "{artist} - {title}"@, 12);
    assert("{Track Title}"@[1] != "{track total:00}"@[1]);
    other_tokens_stay(a, "{Track Title}"@, b, "{track total:00}"@, "{trackTotal}"@, 1);
    assert("{Track Title}"@[1] != "{track total}"@[1]);
    other_tokens_stay(a, "{Track Title}"@, b, "{track total}"@, "{trackTotal}"@, 1);
    assert("{Track Title}"@[1] != "{medium total:00}"@[1]);
    other_tokens_stay(a, "{Track Title}"@, b, "{medium total:00}"@, "{discTotal}"@, 1);
    assert("{Track Title}"@[1] != "{medium total}"@[1]);
    other_tokens_stay(a, "{Track Title}"@, b, "{medium total}"@, "{discTotal}"@, 1);
    assert("{Track Title}"@[1] != "{track:000}"@[1]);
    other_tokens_stay(a, "{Track Title}"@, b, "{track:000}"@, "{track:03}"@, 1);
    assert("{Track Title}"@[1] != "{track:00}"@[1]);
    other_tokens_stay(a, "{Track Title}"@, b, "{track:00}"@, "{track:02}"@, 1);
    assert("{Track Title}"@[1] != "{medium:00}"@[1]);
    other_tokens_stay(a, "{Track Title}"@, b, "{medium:00}"@, "{disc:02}"@, 1);
    assert("{Track Title}"@[1] != "{Medium Format}"@[1]);
    other_tokens_stay(a, "{Track Title}"@, b, "{Medium Format}"@, "{disc}"@, 1);
    assert("{Track Title}"@[1] != "{medium}"@[1]);
    other_tokens_stay(a, "{Track Title}"@, b, "{medium}"@, "{disc}"@, 1);
    the_token_is_replaced(a, b, "{Track Title}"@, "{title}"@);
    assert("{title}"@[1] != "{Recording Title}"@[1]);
    other_tokens_stay(a, "{title}"@, b, "{Recording Title}"@, "{title}"@, 1);
    assert("{title}"@[1] != "{Album Title}"@[1]);
    other_tokens_stay(a, "{title}"@, b, "{Album Title}"@, "{album}"@, 1);
    assert("{title}"@[1] != "{Release Year}"@[1]);
    other_tokens_stay(a, "{title}"@, b, "{Release Year}"@, "{year}"@, 1);
    assert("{title}"@[1] != "{Release Date}"@[1]);
    other_tokens_stay(a, "{title}"@, b, "{Release Date}"@, "{year}"@, 1);
    assert("{title}"@[1] != "{Album Artist Name}"@[1]);
    other_tokens_stay(a, "{title}"@, b, "{Album Artist Name}"@, "{albumArtist}"@, 1);
    assert("{title}"@[1] != "{Artist Name}"@[1]);
    other_tokens_stay(a, "{title}"@, b, "{Artist Name}"@, "{albumArtist}"@, 1);
    assert("{title}"@[1] != "{Artists}"@[1]);
    other_tokens_stay(a, "{title}"@, b, "{Artists}"@, "{artist}"@, 1);
    assert("{title}"@[1] != "{Artist Disambiguation}"@[1]);
    other_tokens_stay(a, "{title}"@, b, "{Artist Disambiguation}"@, ""@, 1);
    assert("{title}"@[1] != "{Album Disambiguation}"@[1]);
    other_tokens_stay(a, "{title}"@, b, "{Album Disambiguation}"@, ""@, 1);
    assert("{title}"@[1] != "{Label}"@[1]);
    other_tokens_stay(a, "{title}"@, b, "{Label}"@, ""@, 1);
    assert("{title}"@[1] != "{Catalog Number}"@[1]);
    other_tokens_stay(a, "{title}"@, b, "{Catalog Number}"@, ""@, 1);
    assert("{title}"@[1] != "{Track Title First Character}"@[1]);
    other_tokens_stay(a, "{title}"@, b, "{Track Title First Character}"@, ""@, 1);
}

/// `{Recording Title}` becomes `{title}`, and all that is around it stays.
pub proof fn the_title_of_the_recording_is_understood(a: Seq<char>, b: Seq<char>)
    requires
        forall|i: int| 0 <= i < a.len() ==> #[trigger] a[i] != '{',
        forall|i: int| 0 <= i < b.len() ==> #[trigger] b[i] != '{',
    ensures
        template::translated(a + "{Recording Title}"@ + b) == a + "{title}"@ + b,
{
    reveal_strlit("{Track Title With Artist}");
    reveal_strlit("{track total:00}");
    reveal_strlit("{track total}");
    reveal_strlit("{medium total:00}");
    reveal_strlit("{medium total}");
    reveal_strlit("{track:000}");
    reveal_strlit("{track:00}");
    reveal_strlit("{medium:00}");
    reveal_strlit("{Medium Format}");
    reveal_strlit("{medium}");
    reveal_strlit("{Track Title}");
    reveal_strlit("{Recording Title}");
    reveal_strlit("{Album Title}");
    reveal_strlit("{Release Year}");
    reveal_strlit("{Release Date}");
    reveal_strlit("{Album Artist Name}");
    reveal_strlit("{Artist Name}");
    reveal_strlit("{Artists}");
    reveal_strlit("{Artist Disambiguation}");
    reveal_strlit("{Album Disambiguation}");
    reveal_strlit("{Label}");
    reveal_strlit("{Catalog Number}");
    reveal_strlit("{Track Title First Character}");
    reveal_strlit("{title}");
    assert("{Recording Title}"@[1] != "{Track Title With Artist}"@[1]);
    other_tokens_stay(a, "{Recording Title}"@, b, "{Track Title With Artist}"@, "{artist} - {title}"@, 1);
    assert("{Recording Title}"@[1] != "{track total:00}"@[1]);
    other_tokens_stay(a, "{Recording Title}"@, b, "{track total:00}"@, "{trackTotal}"@, 1);
    assert("{Recording Title}"@[1] != "{track total}"@[1]);
    other_tokens_stay(a, "{Recording Title}"@, b, "{track total}"@, "{trackTotal}"@, 1);
    assert("{Recording Title}"@[1] != "{medium total:00}"@[1]);
    other_tokens_stay(a, "{Recording Title}"@, b, "{medium total:00}"@, "{discTotal}"@, 1);
    assert("{Recording Title}"@[1] != "{medium total}"@[1]);
    other_tokens_stay(a, "{Recording Title}"@, b, "{medium total}"@, "{discTotal}"@, 1);
    assert("{Recording Title}"@[1] != "{track:000}"@[1]);
    other_tokens_stay(a, "{Recording Title}"@, b, "{track:000}"@, "{track:03}"@, 1);
    assert("{Recording Title}"@[1] != "{track:00}"@[1]);
    other_tokens_stay(a, "{Recording Title}"@, b, "{track:00}"@, "{track:02}"@, 1);
    assert("{Recording Title}"@[1] != "{medium:00}"@[1]);
    other_tokens_stay(a, "{Recording Title}"@, b, "{medium:00}"@, "{disc:02}"@, 1);
    assert("{Recording Title}"@[1] != "{Medium Format}"@[1]);
    other_tokens_stay(a, "{Recording Title}"@, b, "{Medium Format}"@, "{disc}"@, 1);
    assert("{Recording Title}"@[1] != "{medium}"@[1]);
    other_tokens_stay(a, "{Recording Title}"@, b, "{medium}"@, "{disc}"@, 1);
    assert("{Recording Title}"@[1] != "{Track Title}"@[1]);
    other_tokens_stay(a, "{Recording Title}"@, b, "{Track Title}"@, "{title}"@, 1);
    the_token_is_replaced(a, b, "{Recording Title}"@, "{title}"@);
    assert("{title}"@[1] != "{Album Title}"@[1]);
    other_tokens_stay(a, "{title}"@, b, "{Album Title}"@, "{album}"@, 1);
    assert("{title}"@[1] != "{Release Year}"@[1]);
    other_tokens_stay(a, "{title}"@, b, "{Release Year}"@, "{year}"@, 1);
    assert("{title}"@[1] != "{Release Date}"@[1]);
    other_tokens_stay(a, "{title}"@, b, "{Release Date}"@, "{year}"@, 1);
    assert("{title}"@[1] != "{Album Artist Name}"@[1]);
    other_tokens_stay(a, "{title}"@, b, "{Album Artist Name}"@, "{albumArtist}"@, 1);
    assert("{title}"@[1] != "{Artist Name}"@[1]);
    other_tokens_stay(a, "{title}"@, b, "{Artist Name}"@, "{albumArtist}"@, 1);
    assert("{title}"@[1] != "{Artists}"@[1]);
    other_tokens_stay(a, "{title}"@, b, "{Artists}"@, "{artist}"@, 1);
    assert("{title}"@[1] != "{Artist Disambiguation}"@[1]);
    other_tokens_stay(a, "{title}"@, b, "{Artist Disambiguation}"@, ""@, 1);
    assert("{title}"@[1] != "{Album Disambiguation}"@[1]);
    other_tokens_stay(a, "{title}"@, b, "{Album Disambiguation}"@, ""@, 1);
    assert("{title}"@[1] != "{Label}"@[1]);
    other_tokens_stay(a, "{title}"@, b, "{Label}"@, ""@, 1);
    assert("{title}"@[1] != "{Catalog Number}"@[1]);
    other_tokens_stay(a, "{title}"@, b, "{Catalog Number}"@, ""@, 1);
    assert("{title}"@[1] != "{Track Title First Character}"@[1]);
    other_tokens_stay(a, "{title}"@, b, "{Track Title First Character}"@, ""@, 1);
}

/// `{Album Title}` becomes `{album}`, and all that is around it stays.
pub proof fn the_album_is_understood(a: Seq<char>, b: Seq<char>)
    requires
        forall|i: int| 0 <= i < a.len() ==> #[trigger] a[i] != '{',
        forall|i: int| 0 <= i < b.len() ==> #[trigger] b[i] != '{',
    ensures
        template::translated(a + "{Album Title}"@ + b) == a + "{album}"@ + b,
{
    reveal_strlit("{Track Title With Artist}");
    reveal_strlit("{track total:00}");
    reveal_strlit("{track total}");
    reveal_strlit("{medium total:00}");
    reveal_strlit("{medium total}");
    reveal_strlit("{track:000}");
    reveal_strlit("{track:00}");
    reveal_strlit("{medium:00}");
    reveal_strlit("{Medium Format}");
    reveal_strlit("{medium}");
    reveal_strlit("{Track Title}");
    reveal_strlit("{Recording Title}");
    reveal_strlit("{Album Title}");
    reveal_strlit("{Release Year}");
    reveal_strlit("{Release Date}");
    reveal_strlit("{Album Artist Name}");
    reveal_strlit("{Artist Name}");
    reveal_strlit("{Artists}");
    reveal_strlit("{Artist Disambiguation}");
    reveal_strlit("{Album Disambiguation}");
    reveal_strlit("{Label}");
    reveal_strlit("{Catalog Number}");
    reveal_strlit("{Track Title First Character}");
    reveal_strlit("{album}");
    assert("{Album Title}"@[1] != "{Track Title With Artist}"@[1]);
    other_tokens_stay(a, "{Album Title}"@, b, "{Track Title With Artist}"@, "{artist} - {title}"@, 1);
    assert("{Album Title}"@[1] != "{track total:00}"@[1]);
    other_tokens_stay(a, "{Album Title}"@, b, "{track total:00}"@, "{trackTotal}"@, 1);
    assert("{Album Title}"@[1] != "{track total}"@[1]);
    other_tokens_stay(a, "{Album Title}"@, b, "{track total}"@, "{trackTotal}"@, 1);
    assert("{Album Title}"@[1] != "{medium total:00}"@[1]);
    other_tokens_stay(a, "{Album Title}"@, b, "{medium total:00}"@, "{discTotal}"@, 1);
    assert("{Album Title}"@[1] != "{medium total}"@[1]);
    other_tokens_stay(a, "{Album Title}"@, b, "{medium total}"@, "{discTotal}"@, 1);
    assert("{Album Title}"@[1] != "{track:000}"@[1]);
    other_tokens_stay(a, "{Album Title}"@, b, "{track:000}"@, "{track:03}"@, 1);
    assert("{Album Title}"@[1] != "{track:00}"@[1]);
    other_tokens_stay(a, "{Album Title}"@, b, "{track:00}"@, "{track:02}"@, 1);
    assert("{Album Title}"@[1] != "{medium:00}"@[1]);
    other_tokens_stay(a, "{Album Title}"@, b, "{medium:00}"@, "{disc:02}"@, 1);
    assert("{Album Title}"@[1] != "{Medium Format}"@[1]);
    other_tokens_stay(a, "{Album Title}"@, b, "{Medium Format}"@, "{disc}"@, 1);
    assert("{Album Title}"@[1] != "{medium}"@[1]);
    other_tokens_stay(a, "{Album Title}"@, b, "{medium}"@, "{disc}"@, 1);
    assert("{Album Title}"@[1] != "{Track Title}"@[1]);
    other_tokens_stay(a, "{Album Title}"@, b, "{Track Title}"@, "{title}"@, 1);
    assert("{Album Title}"@[1] != "{Recording Title}"@[1]);
    other_tokens_stay(a, "{Album Title}"@, b, "{Recording Title}"@, "{title}"@, 1);
    the_token_is_replaced(a, b, "{Album Title}"@, "{album}"@);
    assert("{album}"@[1] != "{Release Year}"@[1]);
    other_tokens_stay(a, "{album}"@, b, "{Release Year}"@, "{year}"@, 1);
    assert("{album}"@[1] != "{Release Date}"@[1]);
    other_tokens_stay(a, "{album}"@, b, "{Release Date}"@, "{year}"@, 1);
    assert("{album}"@[1] != "{Album Artist Name}"@[1]);
    other_tokens_stay(a, "{album}"@, b, "{Album Artist Name}"@, "{albumArtist}"@, 1);
    assert("{album}"@[1] != "{Artist Name}"@[1]);
    other_tokens_stay(a, "{album}"@, b, "{Artist Name}"@, "{albumArtist}"@, 1);
    assert("{album}"@[1] != "{Artists}"@[1]);
    other_tokens_stay(a, "{album}"@, b, "{Artists}"@, "{artist}"@, 1);
    assert("{album}"@[1] != "{Artist Disambiguation}"@[1]);
    other_tokens_stay(a, "{album}"@, b, "{Artist Disambiguation}"@, ""@, 1);
    assert("{album}"@[1] != "{Album Disambiguation}"@[1]);
    other_tokens_stay(a, "{album}"@, b, "{Album Disambiguation}"@, ""@, 1);
    assert("{album}"@[1] != "{Label}"@[1]);
    other_tokens_stay(a, "{album}"@, b, "{Label}"@, ""@, 1);
    assert("{album}"@[1] != "{Catalog Number}"@[1]);
    other_tokens_stay(a, "{album}"@, b, "{Catalog Number}"@, ""@, 1);
    assert("{album}"@[1] != "{Track Title First Character}"@[1]);
    other_tokens_stay(a, "{album}"@, b, "{Track Title First Character}"@, ""@, 1);
}

/// `{Release Year}` becomes `{year}`, and all that is around it stays.
pub proof fn the_year_is_understood(a: Seq<char>, b: Seq<char>)
    requires
        forall|i: int| 0 <= i < a.len() ==> #[trigger] a[i] != '{',
        forall|i: int| 0 <= i < b.len() ==> #[trigger] b[i] != '{',
    ensures
        template::translated(a + "{Release Year}"@ + b) == a + "{year}"@ + b,
{
    reveal_strlit("{Track Title With Artist}");
    reveal_strlit("{track total:00}");
    reveal_strlit("{track total}");
    reveal_strlit("{medium total:00}");
    reveal_strlit("{medium total}");
    reveal_strlit("{track:000}");
    reveal_strlit("{track:00}");
    reveal_strlit("{medium:00}");
    reveal_strlit("{Medium Format}");
    reveal_strlit("{medium}");
    reveal_strlit("{Track Title}");
    reveal_strlit("{Recording Title}");
    reveal_strlit("{Album Title}");
    reveal_strlit("{Release Year}");
    reveal_strlit("{Release Date}");
    reveal_strlit("{Album Artist Name}");
    reveal_strlit("{Artist Name}");
    reveal_strlit("{Artists}");
    reveal_strlit("{Artist Disambiguation}");
    reveal_strlit("{Album Disambiguation}");
    reveal_strlit("{Label}");
    reveal_strlit("{Catalog Number}");
    reveal_strlit("{Track Title First Character}");
    reveal_strlit("{year}");
    assert("{Release Year}"@[1] != "{Track Title With Artist}"@[1]);
    other_tokens_stay(a, "{Release Year}"@, b, "{Track Title With Artist}"@, "{artist} - {title}"@, 1);
    assert("{Release Year}"@[1] != "{track total:00}"@[1]);
    other_tokens_stay(a, "{Release Year}"@, b, "{track total:00}"@, "{trackTotal}"@, 1);
    assert("{Release Year}"@[1] != "{track total}"@[1]);
    other_tokens_stay(a, "{Release Year}"@, b, "{track total}"@, "{trackTotal}"@, 1);
    assert("{Release Year}"@[1] != "{medium total:00}"@[1]);
    other_tokens_stay(a, "{Release Year}"@, b, "{medium total:00}"@, "{discTotal}"@, 1);
    assert("{Release Year}"@[1] != "{medium total}"@[1]);
    other_tokens_stay(a, "{Release Year}"@, b, "{medium total}"@, "{discTotal}"@, 1);
    assert("{Release Year}"@[1] != "{track:000}"@[1]);
    other_tokens_stay(a, "{Release Year}"@, b, "{track:000}"@, "{track:03}"@, 1);
    assert("{Release Year}"@[1] != "{track:00}"@[1]);
    other_tokens_stay(a, "{Release Year}"@, b, "{track:00}"@, "{track:02}"@, 1);
    assert("{Release Year}"@[1] != "{medium:00}"@[1]);
    other_tokens_stay(a, "{Release Year}"@, b, "{medium:00}"@, "{disc:02}"@, 1);
    assert("{Release Year}"@[1] != "{Medium Format}"@[1]);
    other_tokens_stay(a, "{Release Year}"@, b, "{Medium Format}"@, "{disc}"@, 1);
    assert("{Release Year}"@[1] != "{medium}"@[1]);
    other_tokens_stay(a, "{Release Year}"@, b, "{medium}"@, "{disc}"@, 1);
    assert("{Release Year}"@[1] != "{Track Title}"@[1]);
    other_tokens_stay(a, "{Release Year}"@, b, "{Track Title}"@, "{title}"@, 1);
    assert("{Release Year}"@[3] != "{Recording Title}"@[3]);
    other_tokens_stay(a, "{Release Year}"@, b, "{Recording Title}"@, "{title}"@, 3);
    assert("{Release Year}"@[1] != "{Album Title}"@[1]);
    other_tokens_stay(a, "{Release Year}"@, b, "{Album Title}"@, "{album}"@, 1);
    the_token_is_replaced(a, b, "{Release Year}"@, "{year}"@);
    assert("{year}"@[1] != "{Release Date}"@[1]);
    other_tokens_stay(a, "{year}"@, b, "{Release Date}"@, "{year}"@, 1);
    assert("{year}"@[1] != "{Album Artist Name}"@[1]);
    other_tokens_stay(a, "{year}"@, b, "{Album Artist Name}"@, "{albumArtist}"@, 1);
    assert("{year}"@[1] != "{Artist Name}"@[1]);
    other_tokens_stay(a, "{year}"@, b, "{Artist Name}"@, "{albumArtist}"@, 1);
    assert("{year}"@[1] != "{Artists}"@[1]);
    other_tokens_stay(a, "{year}"@, b, "{Artists}"@, "{artist}"@, 1);
    assert("{year}"@[1] != "{Artist Disambiguation}"@[1]);
    other_tokens_stay(a, "{year}"@, b, "{Artist Disambiguation}"@, ""@, 1);
    assert("{year}"@[1] != "{Album Disambiguation}"@[1]);
    other_tokens_stay(a, "{year}"@, b, "{Album Disambiguation}"@, ""@, 1);
    assert("{year}"@[1] != "{Label}"@[1]);
    other_tokens_stay(a, "{year}"@, b, "{Label}"@, ""@, 1);
    assert("{year}"@[1] != "{Catalog Number}"@[1]);
    other_tokens_stay(a, "{year}"@, b, "{Catalog Number}"@, ""@, 1);
    assert("{year}"@[1] != "{Track Title First Character}"@[1]);
    other_tokens_stay(a, "{year}"@, b, "{Track Title First Character}"@, ""@, 1);
}

/// `{Release Date}` becomes `{year}`, and all that is around it stays.
pub proof fn the_date_is_understood(a: Seq<char>, b: Seq<char>)
    requires
        forall|i: int| 0 <= i < a.len() ==> #[trigger] a[i] != '{',
        forall|i: int| 0 <= i < b.len() ==> #[trigger] b[i] != '{',
    ensures
        template::translated(a + "{Release Date}"@ + b) == a + "{year}"@ + b,
{
    reveal_strlit("{Track Title With Artist}");
    reveal_strlit("{track total:00}");
    reveal_strlit("{track total}");
    reveal_strlit("{medium total:00}");
    reveal_strlit("{medium total}");
    reveal_strlit("{track:000}");
    reveal_strlit("{track:00}");
    reveal_strlit("{medium:00}");
    reveal_strlit("{Medium Format}");
    reveal_strlit("{medium}");
    reveal_strlit("{Track Title}");
    reveal_strlit("{Recording Title}");
    reveal_strlit("{Album Title}");
    reveal_strlit("{Release Year}");
    reveal_strlit("{Release Date}");
    reveal_strlit("{Album Artist Name}");
    reveal_strlit("{Artist Name}");
    reveal_strlit("{Artists}");
    reveal_strlit("{Artist Disambiguation}");
    reveal_strlit("{Album Disambiguation}");
    reveal_strlit("{Label}");
    reveal_strlit("{Catalog Number}");
    reveal_strlit("{Track Title First Character}");
    reveal_strlit("{year}");
    assert("{Release Date}"@[1] != "{Track Title With Artist}"@[1]);
    other_tokens_stay(a, "{Release Date}"@, b, "{Track Title With Artist}"@, "{artist} - {title}"@, 1);
    assert("{Release Date}"@[1] != "{track total:00}"@[1]);
    other_tokens_stay(a, "{Release Date}"@, b, "{track total:00}"@, "{trackTotal}"@, 1);
    assert("{Release Date}"@[1] != "{track total}"@[1]);
    other_tokens_stay(a, "{Release Date}"@, b, "{track total}"@, "{trackTotal}"@, 1);
    assert("{Release Date}"@[1] != "{medium total:00}"@[1]);
    other_tokens_stay(a, "{Release Date}"@, b, "{medium total:00}"@, "{discTotal}"@, 1);
    assert("{Release Date}"@[1] != "{medium total}"@[1]);
    other_tokens_stay(a, "{Release Date}"@, b, "{medium total}"@, "{discTotal}"@, 1);
    assert("{Release Date}"@[1] != "{track:000}"@[1]);
    other_tokens_stay(a, "{Release Date}"@, b, "{track:000}"@, "{track:03}"@, 1);
    assert("{Release Date}"@[1] != "{track:00}"@[1]);
    other_tokens_stay(a, "{Release Date}"@, b, "{track:00}"@, "{track:02}"@, 1);
    assert("{Release Date}"@[1] != "{medium:00}"@[1]);
    other_tokens_stay(a, "{Release Date}"@, b, "{medium:00}"@, "{disc:02}"@, 1);
    assert("{Release Date}"@[1] != "{Medium Format}"@[1]);
    other_tokens_stay(a, "{Release Date}"@, b, "{Medium Format}"@, "{disc}"@, 1);
    assert("{Release Date}"@[1] != "{medium}"@[1]);
    other_tokens_stay(a, "{Release Date}"@, b, "{medium}"@, "{disc}"@, 1);
    assert("{Release Date}"@[1] != "{Track Title}"@[1]);
    other_tokens_stay(a, "{Release Date}"@, b, "{Track Title}"@, "{title}"@, 1);
    assert("{Release Date}"@[3] != "{Recording Title}"@[3]);
    other_tokens_stay(a, "{Release Date}"@, b, "{Recording Title}"@, "{title}"@, 3);
    assert("{Release Date}"@[1] != "{Album Title}"@[1]);
    other_tokens_stay(a, "{Release Date}"@, b, "{Album Title}"@, "{album}"@, 1);
    assert("{Release Date}"@[9] != "{Release Year}"@[9]);
    other_tokens_stay(a, "{Release Date}"@, b, "{Release Year}"@, "{year}"@, 9);
    the_token_is_replaced(a, b, "{Release Date}"@, "{year}"@);
    assert("{year}"@[1] != "{Album Artist Name}"@[1]);
    other_tokens_stay(a, "{year}"@, b, "{Album Artist Name}"@, "{albumArtist}"@, 1);
    assert("{year}"@[1] != "{Artist Name}"@[1]);
    other_tokens_stay(a, "{year}"@, b, "{Artist Name}"@, "{albumArtist}"@, 1);
    assert("{year}"@[1] != "{Artists}"@[1]);
    other_tokens_stay(a, "{year}"@, b, "{Artists}"@, "{artist}"@, 1);
    assert("{year}"@[1] != "{Artist Disambiguation}"@[1]);
    other_tokens_stay(a, "{year}"@, b, "{Artist Disambiguation}"@, ""@, 1);
    assert("{year}"@[1] != "{Album Disambiguation}"@[1]);
    other_tokens_stay(a, "{year}"@, b, "{Album Disambiguation}"@, ""@, 1);
    assert("{year}"@[1] != "{Label}"@[1]);
    other_tokens_stay(a, "{year}"@, b, "{Label}"@, ""@, 1);
    assert("{year}"@[1] != "{Catalog Number}"@[1]);
    other_tokens_stay(a, "{year}"@, b, "{Catalog Number}"@, ""@, 1);
    assert("{year}"@[1] != "{Track Title First Character}"@[1]);
    other_tokens_stay(a, "{year}"@, b, "{Track Title First Character}"@, ""@, 1);
}

/// `{Album Artist Name}` becomes `{albumArtist}`, and all that is around it stays.
pub proof fn the_album_artist_is_understood(a: Seq<char>, b: Seq<char>)
    requires
        forall|i: int| 0 <= i < a.len() ==> #[trigger] a[i] != '{',
        forall|i: int| 0 <= i < b.len() ==> #[trigger] b[i] != '{',
    ensures
        template::translated(a + "{Album Artist Name}"@ + b) == a + "{albumArtist}"@ + b,
{
    reveal_strlit("{Track Title With Artist}");
    reveal_strlit("{track total:00}");
    reveal_strlit("{track total}");
    reveal_strlit("{medium total:00}");
    reveal_strlit("{medium total}");
    reveal_strlit("{track:000}");
    reveal_strlit("{track:00}");
    reveal_strlit("{medium:00}");
    reveal_strlit("{Medium Format}");
    reveal_strlit("{medium}");
    reveal_strlit("{Track Title}");
    reveal_strlit("{Recording Title}");
    reveal_strlit("{Album Title}");
    reveal_strlit("{Release Year}");
    reveal_strlit("{Release Date}");
    reveal_strlit("{Album Artist Name}");
    reveal_strlit("{Artist Name}");
    reveal_strlit("{Artists}");
    reveal_strlit("{Artist Disambiguation}");
    reveal_strlit("{Album Disambiguation}");
    reveal_strlit("{Label}");
    reveal_strlit("{Catalog Number}");
    reveal_strlit("{Track Title First Character}");
    reveal_strlit("{albumArtist}");
    assert("{Album Artist Name}"@[1] != "{Track Title With Artist}"@[1]);
    other_tokens_stay(a, "{Album Artist Name}"@, b, "{Track Title With Artist}"@, "{artist} - {title}"@, 1);
    assert("{Album Artist Name}"@[1] != "{track total:00}"@[1]);
    other_tokens_stay(a, "{Album Artist Name}"@, b, "{track total:00}"@, "{trackTotal}"@, 1);
    assert("{Album Artist Name}"@[1] != "{track total}"@[1]);
    other_tokens_stay(a, "{Album Artist Name}"@, b, "{track total}"@, "{trackTotal}"@, 1);
    assert("{Album Artist Name}"@[1] != "{medium total:00}"@[1]);
    other_tokens_stay(a, "{Album Artist Name}"@, b, "{medium total:00}"@, "{discTotal}"@, 1);
    assert("{Album Artist Name}"@[1] != "{medium total}"@[1]);
    other_tokens_stay(a, "{Album Artist Name}"@, b, "{medium total}"@, "{discTotal}"@, 1);
    assert("{Album Artist Name}"@[1] != "{track:000}"@[1]);
    other_tokens_stay(a, "{Album Artist Name}"@, b, "{track:000}"@, "{track:03}"@, 1);
    assert("{Album Artist Name}"@[1] != "{track:00}"@[1]);
    other_tokens_stay(a, "{Album Artist Name}"@, b, "{track:00}"@, "{track:02}"@, 1);
    assert("{Album Artist Name}"@[1] != "{medium:00}"@[1]);
    other_tokens_stay(a, "{Album Artist Name}"@, b, "{medium:00}"@, "{disc:02}"@, 1);
    assert("{Album Artist Name}"@[1] != "{Medium Format}"@[1]);
    other_tokens_stay(a, "{Album Artist Name}"@, b, "{Medium Format}"@, "{disc}"@, 1);
    assert("{Album Artist Name}"@[1] != "{medium}"@[1]);
    other_tokens_stay(a, "{Album Artist Name}"@, b, "{medium}"@, "{disc}"@, 1);
    assert("{Album Artist Name}"@[1] != "{Track Title}"@[1]);
    other_tokens_stay(a, "{Album Artist Name}"@, b, "{Track Title}"@, "{title}"@, 1);
    assert("{Album Artist Name}"@[1] != "{Recording Title}"@[1]);
    other_tokens_stay(a, "{Album Artist Name}"@, b, "{Recording Title}"@, "{title}"@, 1);
    assert("{Album Artist Name}"@[7] != "{Album Title}"@[7]);
    other_tokens_stay(a, "{Album Artist Name}"@, b, "{Album Title}"@, "{album}"@, 7);
    assert("{Album Artist Name}"@[1] != "{Release Year}"@[1]);
    other_tokens_stay(a, "{Album Artist Name}"@, b, "{Release Year}"@, "{year}"@, 1);
    assert("{Album Artist Name}"@[1] != "{Release Date}"@[1]);
    other_tokens_stay(a, "{Album Artist Name}"@, b, "{Release Date}"@, "{year}"@, 1);
    the_token_is_replaced(a, b, "{Album Artist Name}"@, "{albumArtist}"@);
    assert("{albumArtist}"@[1] != "{Artist Name}"@[1]);
    other_tokens_stay(a, "{albumArtist}"@, b, "{Artist Name}"@, "{albumArtist}"@, 1);
    assert("{albumArtist}"@[1] != "{Artists}"@[1]);
    other_tokens_stay(a, "{albumArtist}"@, b, "{Artists}"@, "{artist}"@, 1);
    assert("{albumArtist}"@[1] != "{Artist Disambiguation}"@[1]);
    other_tokens_stay(a, "{albumArtist}"@, b, "{Artist Disambiguation}"@, ""@, 1);
    assert("{albumArtist}"@[1] != "{Album Disambiguation}"@[1]);
    other_tokens_stay(a, "{albumArtist}"@, b, "{Album Disambiguation}"@, ""@, 1);
    assert("{albumArtist}"@[1] != "{Label}"@[1]);
    other_tokens_stay(a, "{albumArtist}"@, b, "{Label}"@, ""@, 1);
    assert("{albumArtist}"@[1] != "{Catalog Number}"@[1]);
    other_tokens_stay(a, "{albumArtist}"@, b, "{Catalog Number}"@, ""@, 1);
    assert("{albumArtist}"@[1] != "{Track Title First Character}"@[1]);
    other_tokens_stay(a, "{albumArtist}"@, b, "{Track Title First Character}"@, ""@, 1);
}

/// `{Artist Name}` becomes `{albumArtist}`, and all that is around it stays.
pub proof fn the_artist_of_the_album_is_understood(a: Seq<char>, b: Seq<char>)
    requires
        forall|i: int| 0 <= i < a.len() ==> #[trigger] a[i] != '{',
        forall|i: int| 0 <= i < b.len() ==> #[trigger] b[i] != '{',
    ensures
        template::translated(a + "{Artist Name}"@ + b) == a + "{albumArtist}"@ + b,
{
    reveal_strlit("{Track Title With Artist}");
    reveal_strlit("{track total:00}");
    reveal_strlit("{track total}");
    reveal_strlit("{medium total:00}");
    reveal_strlit("{medium total}");
    reveal_strlit("{track:000}");
    reveal_strlit("{track:00}");
    reveal_strlit("{medium:00}");
    reveal_strlit("{Medium Format}");
    reveal_strlit("{medium}");
    reveal_strlit("{Track Title}");
    reveal_strlit("{Recording Title}");
    reveal_strlit("{Album Title}");
    reveal_strlit("{Release Year}");
    reveal_strlit("{Release Date}");
    reveal_strlit("{Album Artist Name}");
    reveal_strlit("{Artist Name}");
    reveal_strlit("{Artists}");
    reveal_strlit("{Artist Disambiguation}");
    reveal_strlit("{Album Disambiguation}");
    reveal_strlit("{Label}");
    reveal_strlit("{Catalog Number}");
    reveal_strlit("{Track Title First Character}");
    reveal_strlit("{albumArtist}");
    assert("{Artist Name}"@[1] != "{Track Title With Artist}"@[1]);
    other_tokens_stay(a, "{Artist Name}"@, b, "{Track Title With Artist}"@, "{artist} - {title}"@, 1);
    assert("{Artist Name}"@[1] != "{track total:00}"@[1]);
    other_tokens_stay(a, "{Artist Name}"@, b, "{track total:00}"@, "{trackTotal}"@, 1);
    assert("{Artist Name}"@[1] != "{track total}"@[1]);
    other_tokens_stay(a, "{Artist Name}"@, b, "{track total}"@, "{trackTotal}"@, 1);
    assert("{Artist Name}"@[1] != "{medium total:00}"@[1]);
    other_tokens_stay(a, "{Artist Name}"@, b, "{medium total:00}"@, "{discTotal}"@, 1);
    assert("{Artist Name}"@[1] != "{medium total}"@[1]);
    other_tokens_stay(a, "{Artist Name}"@, b, "{medium total}"@, "{discTotal}"@, 1);
    assert("{Artist Name}"@[1] != "{track:000}"@[1]);
    other_tokens_stay(a, "{Artist Name}"@, b, "{track:000}"@, "{track:03}"@, 1);
    assert("{Artist Name}"@[1] != "{track:00}"@[1]);
    other_tokens_stay(a, "{Artist Name}"@, b, "{track:00}"@, "{track:02}"@, 1);
    assert("{Artist Name}"@[1] != "{medium:00}"@[1]);
    other_tokens_stay(a, "{Artist Name}"@, b, "{medium:00}"@, "{disc:02}"@, 1);
    assert("{Artist Name}"@[1] != "{Medium Format}"@[1]);
    other_tokens_stay(a, "{Artist Name}"@, b, "{Medium Format}"@, "{disc}"@, 1);
    assert("{Artist Name}"@[1] != "{medium}"@[1]);
    other_tokens_stay(a, "{Artist Name}"@, b, "{medium}"@, "{disc}"@, 1);
    assert("{Artist Name}"@[1] != "{Track Title}"@[1]);
    other_tokens_stay(a, "{Artist Name}"@, b, "{Track Title}"@, "{title}"@, 1);
    assert("{Artist Name}"@[1] != "{Recording Title}"@[1]);
    other_tokens_stay(a, "{Artist Name}"@, b, "{Recording Title}"@, "{title}"@, 1);
    assert("{Artist Name}"@[2] != "{Album Title}"@[2]);
    other_tokens_stay(a, "{Artist Name}"@, b, "{Album Title}"@, "{album}"@, 2);
    assert("{Artist Name}"@[1] != "{Release Year}"@[1]);
    other_tokens_stay(a, "{Artist Name}"@, b, "{Release Year}"@, "{year}"@, 1);
    assert("{Artist Name}"@[1] != "{Release Date}"@[1]);
    other_tokens_stay(a, "{Artist Name}"@, b, "{Release Date}"@, "{year}"@, 1);
    assert("{Artist Name}"@[2] != "{Album Artist Name}"@[2]);
    other_tokens_stay(a, "{Artist Name}"@, b, "{Album Artist Name}"@, "{albumArtist}"@, 2);
    the_token_is_replaced(a, b, "{Artist Name}"@, "{albumArtist}"@);
    assert("{albumArtist}"@[1] != "{Artists}"@[1]);
    other_tokens_stay(a, "{albumArtist}"@, b, "{Artists}"@, "{artist}"@, 1);
    assert("{albumArtist}"@[1] != "{Artist Disambiguation}"@[1]);
    other_tokens_stay(a, "{albumArtist}"@, b, "{Artist Disambiguation}"@, ""@, 1);
    assert("{albumArtist}"@[1] != "{Album Disambiguation}"@[1]);
    other_tokens_stay(a, "{albumArtist}"@, b, "{Album Disambiguation}"@, ""@, 1);
    assert("{albumArtist}"@[1] != "{Label}"@[1]);
    other_tokens_stay(a, "{albumArtist}"@, b, "{Label}"@, ""@, 1);
    assert("{albumArtist}"@[1] != "{Catalog Number}"@[1]);
    other_tokens_stay(a, "{albumArtist}"@, b, "{Catalog Number}"@, ""@, 1);
    assert("{albumArtist}"@[1] != "{Track Title First Character}"@[1]);
    other_tokens_stay(a, "{albumArtist}"@, b, "{Track Title First Character}"@, ""@, 1);
}

/// `{Artists}` becomes `{artist}`, and all that is around it stays.
pub proof fn the_artists_is_understood(a: Seq<char>, b: Seq<char>)
    requires
        forall|i: int| 0 <= i < a.len() ==> #[trigger] a[i] != '{',
        forall|i: int| 0 <= i < b.len() ==> #[trigger] b[i] != '{',
    ensures
        template::translated(a + "{Artists}"@ + b) == a + "{artist}"@ + b,
{
    reveal_strlit("{Track Title With Artist}");
    reveal_strlit("{track total:00}");
    reveal_strlit("{track total}");
    reveal_strlit("{medium total:00}");
    reveal_strlit("{medium total}");
    reveal_strlit("{track:000}");
    reveal_strlit("{track:00}");
    reveal_strlit("{medium:00}");
    reveal_strlit("{Medium Format}");
    reveal_strlit("{medium}");
    reveal_strlit("{Track Title}");
    reveal_strlit("{Recording Title}");
    reveal_strlit("{Album Title}");
    reveal_strlit("{Release Year}");
    reveal_strlit("{Release Date}");
    reveal_strlit("{Album Artist Name}");
    reveal_strlit("{Artist Name}");
    reveal_strlit("{Artists}");
    reveal_strlit("{Artist Disambiguation}");
    reveal_strlit("{Album Disambiguation}");
    reveal_strlit("{Label}");
    reveal_strlit("{Catalog Number}");
    reveal_strlit("{Track Title First Character}");
    reveal_strlit("{artist}");
    assert("{Artists}"@[1] != "{Track Title With Artist}"@[1]);
    other_tokens_stay(a, "{Artists}"@, b, "{Track Title With Artist}"@, "{artist} - {title}"@, 1);
    assert("{Artists}"@[1] != "{track total:00}"@[1]);
    other_tokens_stay(a, "{Artists}"@, b, "{track total:00}"@, "{trackTotal}"@, 1);
    assert("{Artists}"@[1] != "{track total}"@[1]);
    other_tokens_stay(a, "{Artists}"@, b, "{track total}"@, "{trackTotal}"@, 1);
    assert("{Artists}"@[1] != "{medium total:00}"@[1]);
    other_tokens_stay(a, "{Artists}"@, b, "{medium total:00}"@, "{discTotal}"@, 1);
    assert("{Artists}"@[1] != "{medium total}"@[1]);
    other_tokens_stay(a, "{Artists}"@, b, "{medium total}"@, "{discTotal}"@, 1);
    assert("{Artists}"@[1] != "{track:000}"@[1]);
    other_tokens_stay(a, "{Artists}"@, b, "{track:000}"@, "{track:03}"@, 1);
    assert("{Artists}"@[1] != "{track:00}"@[1]);
    other_tokens_stay(a, "{Artists}"@, b, "{track:00}"@, "{track:02}"@, 1);
    assert("{Artists}"@[1] != "{medium:00}"@[1]);
    other_tokens_stay(a, "{Artists}"@, b, "{medium:00}"@, "{disc:02}"@, 1);
    assert("{Artists}"@[1] != "{Medium Format}"@[1]);
    other_tokens_stay(a, "{Artists}"@, b, "{Medium Format}"@, "{disc}"@, 1);
    assert("{Artists}"@[1] != "{medium}"@[1]);
    other_tokens_stay(a, "{Artists}"@, b, "{medium}"@, "{disc}"@, 1);
    assert("{Artists}"@[1] != "{Track Title}"@[1]);
    other_tokens_stay(a, "{Artists}"@, b, "{Track Title}"@, "{title}"@, 1);
    assert("{Artists}"@[1] != "{Recording Title}"@[1]);
    other_tokens_stay(a, "{Artists}"@, b, "{Recording Title}"@, "{title}"@, 1);
    assert("{Artists}"@[2] != "{Album Title}"@[2]);
    other_tokens_stay(a, "{Artists}"@, b, "{Album Title}"@, "{album}"@, 2);
    assert("{Artists}"@[1] != "{Release Year}"@[1]);
    other_tokens_stay(a, "{Artists}"@, b, "{Release Year}"@, "{year}"@, 1);
    assert("{Artists}"@[1] != "{Release Date}"@[1]);
    other_tokens_stay(a, "{Artists}"@, b, "{Release Date}"@, "{year}"@, 1);
    assert("{Artists}"@[2] != "{Album Artist Name}"@[2]);
    other_tokens_stay(a, "{Artists}"@, b, "{Album Artist Name}"@, "{albumArtist}"@, 2);
    assert("{Artists}"@[7] != "{Artist Name}"@[7]);
    other_tokens_stay(a, "{Artists}"@, b, "{Artist Name}"@, "{albumArtist}"@, 7);
    the_token_is_replaced(a, b, "{Artists}"@, "{artist}"@);
    assert("{artist}"@[1] != "{Artist Disambiguation}"@[1]);
    other_tokens_stay(a, "{artist}"@, b, "{Artist Disambiguation}"@, ""@, 1);
    assert("{artist}"@[1] != "{Album Disambiguation}"@[1]);
    other_tokens_stay(a, "{artist}"@, b, "{Album Disambiguation}"@, ""@, 1);
    assert("{artist}"@[1] != "{Label}"@[1]);
    other_tokens_stay(a, "{artist}"@, b, "{Label}"@, ""@, 1);
    assert("{artist}"@[1] != "{Catalog Number}"@[1]);
    other_tokens_stay(a, "{artist}"@, b, "{Catalog Number}"@, ""@, 1);
    assert("{artist}"@[1] != "{Track Title First Character}"@[1]);
    other_tokens_stay(a, "{artist}"@, b, "{Track Title First Character}"@, ""@, 1);
}

/// `{Artist Disambiguation}` is dropped, and all that is around it stays.
pub proof fn the_remark_on_the_artist_is_understood(a: Seq<char>, b: Seq<char>)
    requires
        forall|i: int| 0 <= i < a.len() ==> #[trigger] a[i] != '{',
        forall|i: int| 0 <= i < b.len() ==> #[trigger] b[i] != '{',
    ensures
        template::translated(a + "{Artist Disambiguation}"@ + b) == a + b,
{
    reveal_strlit("{Track Title With Artist}");
    reveal_strlit("{track total:00}");
    reveal_strlit("{track total}");
    reveal_strlit("{medium total:00}");
    reveal_strlit("{medium total}");
    reveal_strlit("{track:000}");
    reveal_strlit("{track:00}");
    reveal_strlit("{medium:00}");
    reveal_strlit("{Medium Format}");
    reveal_strlit("{medium}");
    reveal_strlit("{Track Title}");
    reveal_strlit("{Recording Title}");
    reveal_strlit("{Album Title}");
    reveal_strlit("{Release Year}");
    reveal_strlit("{Release Date}");
    reveal_strlit("{Album Artist Name}");
    reveal_strlit("{Artist Name}");
    reveal_strlit("{Artists}");
    reveal_strlit("{Artist Disambiguation}");
    reveal_strlit("{Album Disambiguation}");
    reveal_strlit("{Label}");
    reveal_strlit("{Catalog Number}");
    reveal_strlit("{Track Title First Character}");
    reveal_strlit("");
    assert("{Artist Disambiguation}"@[1] != "{Track Title With Artist}"@[1]);
    other_tokens_stay(a, "{Artist Disambiguation}"@, b, "{Track Title With Artist}"@, "{artist} - {title}"@, 1);
    assert("{Artist Disambiguation}"@[1] != "{track total:00}"@[1]);
    other_tokens_stay(a, "{Artist Disambiguation}"@, b, "{track total:00}"@, "{trackTotal}"@, 1);
    assert("{Artist Disambiguation}"@[1] != "{track total}"@[1]);
    other_tokens_stay(a, "{Artist Disambiguation}"@, b, "{track total}"@, "{trackTotal}"@, 1);
    assert("{Artist Disambiguation}"@[1] != "{medium total:00}"@[1]);
    other_tokens_stay(a, "{Artist Disambiguation}"@, b, "{medium total:00}"@, "{discTotal}"@, 1);
    assert("{Artist Disambiguation}"@[1] != "{medium total}"@[1]);
    other_tokens_stay(a, "{Artist Disambiguation}"@, b, "{medium total}"@, "{discTotal}"@, 1);
    assert("{Artist Disambiguation}"@[1] != "{track:000}"@[1]);
    other_tokens_stay(a, "{Artist Disambiguation}"@, b, "{track:000}"@, "{track:03}"@, 1);
    assert("{Artist Disambiguation}"@[1] != "{track:00}"@[1]);
    other_tokens_stay(a, "{Artist Disambiguation}"@, b, "{track:00}"@, "{track:02}"@, 1);
    assert("{Artist Disambiguation}"@[1] != "{medium:00}"@[1]);
    other_tokens_stay(a, "{Artist Disambiguation}"@, b, "{medium:00}"@, "{disc:02}"@, 1);
    assert("{Artist Disambiguation}"@[1] != "{Medium Format}"@[1]);
    other_tokens_stay(a, "{Artist Disambiguation}"@, b, "{Medium Format}"@, "{disc}"@, 1);
    assert("{Artist Disambiguation}"@[1] != "{medium}"@[1]);
    other_tokens_stay(a, "{Artist Disambiguation}"@, b, "{medium}"@, "{disc}"@, 1);
    assert("{Artist Disambiguation}"@[1] != "{Track Title}"@[1]);
    other_tokens_stay(a, "{Artist Disambiguation}"@, b, "{Track Title}"@, "{title}"@, 1);
    assert("{Artist Disambiguation}"@[1] != "{Recording Title}"@[1]);
    other_tokens_stay(a, "{Artist Disambiguation}"@, b, "{Recording Title}"@, "{title}"@, 1);
    assert("{Artist Disambiguation}"@[2] != "{Album Title}"@[2]);
    other_tokens_stay(a, "{Artist Disambiguation}"@, b, "{Album Title}"@, "{album}"@, 2);
    assert("{Artist Disambiguation}"@[1] != "{Release Year}"@[1]);
    other_tokens_stay(a, "{Artist Disambiguation}"@, b, "{Release Year}"@, "{year}"@, 1);
    assert("{Artist Disambiguation}"@[1] != "{Release Date}"@[1]);
    other_tokens_stay(a, "{Artist Disambiguation}"@, b, "{Release Date}"@, "{year}"@, 1);
    assert("{Artist Disambiguation}"@[2] != "{Album Artist Name}"@[2]);
    other_tokens_stay(a, "{Artist Disambiguation}"@, b, "{Album Artist Name}"@, "{albumArtist}"@, 2);
    assert("{Artist Disambiguation}"@[8] != "{Artist Name}"@[8]);
    other_tokens_stay(a, "{Artist Disambiguation}"@, b, "{Artist Name}"@, "{albumArtist}"@, 8);
    assert("{Artist Disambiguation}"@[7] != "{Artists}"@[7]);
    other_tokens_stay(a, "{Artist Disambiguation}"@, b, "{Artists}"@, "{artist}"@, 7);
    the_token_is_replaced(a, b, "{Artist Disambiguation}"@, ""@);
    let plain = a + b;
    assert(a + ""@ + b =~= plain);
    assert forall|i: int| 0 <= i < plain.len() implies #[trigger] plain[i] != '{' by {
        if i >= a.len() {
            assert(plain[i] == b[i - a.len()]);
        }
    }
    plain_text_stays(plain, "{Album Disambiguation}"@, ""@);
    plain_text_stays(plain, "{Label}"@, ""@);
    plain_text_stays(plain, "{Catalog Number}"@, ""@);
    plain_text_stays(plain, "{Track Title First Character}"@, ""@);
}

/// `{Album Disambiguation}` is dropped, and all that is around it stays.
pub proof fn the_remark_on_the_album_is_understood(a: Seq<char>, b: Seq<char>)
    requires
        forall|i: int| 0 <= i < a.len() ==> #[trigger] a[i] != '{',
        forall|i: int| 0 <= i < b.len() ==> #[trigger] b[i] != '{',
    ensures
        template::translated(a + "{Album Disambiguation}"@ + b) == a + b,
{
    reveal_strlit("{Track Title With Artist}");
    reveal_strlit("{track total:00}");
    reveal_strlit("{track total}");
    reveal_strlit("{medium total:00}");
    reveal_strlit("{medium total}");
    reveal_strlit("{track:000}");
    reveal_strlit("{track:00}");
    reveal_strlit("{medium:00}");
    reveal_strlit("{Medium Format}");
    reveal_strlit("{medium}");
    reveal_strlit("{Track Title}");
    reveal_strlit("{Recording Title}");
    reveal_strlit("{Album Title}");
    reveal_strlit("{Release Year}");
    reveal_strlit("{Release Date}");
    reveal_strlit("{Album Artist Name}");
    reveal_strlit("{Artist Name}");
    reveal_strlit("{Artists}");
    reveal_strlit("{Artist Disambiguation}");
    reveal_strlit("{Album Disambiguation}");
    reveal_strlit("{Label}");
    reveal_strlit("{Catalog Number}");
    reveal_strlit("{Track Title First Character}");
    reveal_strlit("");
    assert("{Album Disambiguation}"@[1] != "{Track Title With Artist}"@[1]);
    other_tokens_stay(a, "{Album Disambiguation}"@, b, "{Track Title With Artist}"@, "{artist} - {title}"@, 1);
    assert("{Album Disambiguation}"@[1] != "{track total:00}"@[1]);
    other_tokens_stay(a, "{Album Disambiguation}"@, b, "{track total:00}"@, "{trackTotal}"@, 1);
    assert("{Album Disambiguation}"@[1] != "{track total}"@[1]);
    other_tokens_stay(a, "{Album Disambiguation}"@, b, "{track total}"@, "{trackTotal}"@, 1);
    assert("{Album Disambiguation}"@[1] != "{medium total:00}"@[1]);
    other_tokens_stay(a, "{Album Disambiguation}"@, b, "{medium total:00}"@, "{discTotal}"@, 1);
    assert("{Album Disambiguation}"@[1] != "{medium total}"@[1]);
    other_tokens_stay(a, "{Album Disambiguation}"@, b, "{medium total}"@, "{discTotal}"@, 1);
    assert("{Album Disambiguation}"@[1] != "{track:000}"@[1]);
    other_tokens_stay(a, "{Album Disambiguation}"@, b, "{track:000}"@, "{track:03}"@, 1);
    assert("{Album Disambiguation}"@[1] != "{track:00}"@[1]);
    other_tokens_stay(a, "{Album Disambiguation}"@, b, "{track:00}"@, "{track:02}"@, 1);
    assert("{Album Disambiguation}"@[1] != "{medium:00}"@[1]);
    other_tokens_stay(a, "{Album Disambiguation}"@, b, "{medium:00}"@, "{disc:02}"@, 1);
    assert("{Album Disambiguation}"@[1] != "{Medium Format}"@[1]);
    other_tokens_stay(a, "{Album Disambiguation}"@, b, "{Medium Format}"@, "{disc}"@, 1);
    assert("{Album Disambiguation}"@[1] != "{medium}"@[1]);
    other_tokens_stay(a, "{Album Disambiguation}"@, b, "{medium}"@, "{disc}"@, 1);
    assert("{Album Disambiguation}"@[1] != "{Track Title}"@[1]);
    other_tokens_stay(a, "{Album Disambiguation}"@, b, "{Track Title}"@, "{title}"@, 1);
    assert("{Album Disambiguation}"@[1] != "{Recording Title}"@[1]);
    other_tokens_stay(a, "{Album Disambiguation}"@, b, "{Recording Title}"@, "{title}"@, 1);
    assert("{Album Disambiguation}"@[7] != "{Album Title}"@[7]);
    other_tokens_stay(a, "{Album Disambiguation}"@, b, "{Album Title}"@, "{album}"@, 7);
    assert("{Album Disambiguation}"@[1] != "{Release Year}"@[1]);
    other_tokens_stay(a, "{Album Disambiguation}"@, b, "{Release Year}"@, "{year}"@, 1);
    assert("{Album Disambiguation}"@[1] != "{Release Date}"@[1]);
    other_tokens_stay(a, "{Album Disambiguation}"@, b, "{Release Date}"@, "{year}"@, 1);
    assert("{Album Disambiguation}"@[7] != "{Album Artist Name}"@[7]);
    other_tokens_stay(a, "{Album Disambiguation}"@, b, "{Album Artist Name}"@, "{albumArtist}"@, 7);
    assert("{Album Disambiguation}"@[2] != "{Artist Name}"@[2]);
    other_tokens_stay(a, "{Album Disambiguation}"@, b, "{Artist Name}"@, "{albumArtist}"@, 2);
    assert("{Album Disambiguation}"@[2] != "{Artists}"@[2]);
    other_tokens_stay(a, "{Album Disambiguation}"@, b, "{Artists}"@, "{artist}"@, 2);
    assert("{Album Disambiguation}"@[2] != "{Artist Disambiguation}"@[2]);
    other_tokens_stay(a, "{Album Disambiguation}"@, b, "{Artist Disambiguation}"@, ""@, 2);
    the_token_is_replaced(a, b, "{Album Disambiguation}"@, ""@);
    let plain = a + b;
    assert(a + ""@ + b =~= plain);
    assert forall|i: int| 0 <= i < plain.len() implies #[trigger] plain[i] != '{' by {
        if i >= a.len() {
            assert(plain[i] == b[i - a.len()]);
        }
    }
    plain_text_stays(plain, "{Label}"@, ""@);
    plain_text_stays(plain, "{Catalog Number}"@, ""@);
    plain_text_stays(plain, "{Track Title First Character}"@, ""@);
}

/// `{Label}` is dropped, and all that is around it stays.
pub proof fn the_label_is_understood(a: Seq<char>, b: Seq<char>)
    requires
        forall|i: int| 0 <= i < a.len() ==> #[trigger] a[i] != '{',
        forall|i: int| 0 <= i < b.len() ==> #[trigger] b[i] != '{',
    ensures
        template::translated(a + "{Label}"@ + b) == a + b,
{
    reveal_strlit("{Track Title With Artist}");
    reveal_strlit("{track total:00}");
    reveal_strlit("{track total}");
    reveal_strlit("{medium total:00}");
    reveal_strlit("{medium total}");
    reveal_strlit("{track:000}");
    reveal_strlit("{track:00}");
    reveal_strlit("{medium:00}");
    reveal_strlit("{Medium Format}");
    reveal_strlit("{medium}");
    reveal_strlit("{Track Title}");
    reveal_strlit("{Recording Title}");
    reveal_strlit("{Album Title}");
    reveal_strlit("{Release Year}");
    reveal_strlit("{Release Date}");
    reveal_strlit("{Album Artist Name}");
    reveal_strlit("{Artist Name}");
    reveal_strlit("{Artists}");
    reveal_strlit("{Artist Disambiguation}");
    reveal_strlit("{Album Disambiguation}");
    reveal_strlit("{Label}");
    reveal_strlit("{Catalog Number}");
    reveal_strlit("{Track Title First Character}");
    reveal_strlit("");
    assert("{Label}"@[1] != "{Track Title With Artist}"@[1]);
    other_tokens_stay(a, "{Label}"@, b, "{Track Title With Artist}"@, "{artist} - {title}"@, 1);
    assert("{Label}"@[1] != "{track total:00}"@[1]);
    other_tokens_stay(a, "{Label}"@, b, "{track total:00}"@, "{trackTotal}"@, 1);
    assert("{Label}"@[1] != "{track total}"@[1]);
    other_tokens_stay(a, "{Label}"@, b, "{track total}"@, "{trackTotal}"@, 1);
    assert("{Label}"@[1] != "{medium total:00}"@[1]);
    other_tokens_stay(a, "{Label}"@, b, "{medium total:00}"@, "{discTotal}"@, 1);
    assert("{Label}"@[1] != "{medium total}"@[1]);
    other_tokens_stay(a, "{Label}"@, b, "{medium total}"@, "{discTotal}"@, 1);
    assert("{Label}"@[1] != "{track:000}"@[1]);
    other_tokens_stay(a, "{Label}"@, b, "{track:000}"@, "{track:03}"@, 1);
    assert("{Label}"@[1] != "{track:00}"@[1]);
    other_tokens_stay(a, "{Label}"@, b, "{track:00}"@, "{track:02}"@, 1);
    assert("{Label}"@[1] != "{medium:00}"@[1]);
    other_tokens_stay(a, "{Label}"@, b, "{medium:00}"@, "{disc:02}"@, 1);
    assert("{Label}"@[1] != "{Medium Format}"@[1]);
    other_tokens_stay(a, "{Label}"@, b, "{Medium Format}"@, "{disc}"@, 1);
    assert("{Label}"@[1] != "{medium}"@[1]);
    other_tokens_stay(a, "{Label}"@, b, "{medium}"@, "{disc}"@, 1);
    assert("{Label}"@[1] != "{Track Title}"@[1]);
    other_tokens_stay(a, "{Label}"@, b, "{Track Title}"@, "{title}"@, 1);
    assert("{Label}"@[1] != "{Recording Title}"@[1]);
    other_tokens_stay(a, "{Label}"@, b, "{Recording Title}"@, "{title}"@, 1);
    assert("{Label}"@[1] != "{Album Title}"@[1]);
    other_tokens_stay(a, "{Label}"@, b, "{Album Title}"@, "{album}"@, 1);
    assert("{Label}"@[1] != "{Release Year}"@[1]);
    other_tokens_stay(a, "{Label}"@, b, "{Release Year}"@, "{year}"@, 1);
    assert("{Label}"@[1] != "{Release Date}"@[1]);
    other_tokens_stay(a, "{Label}"@, b, "{Release Date}"@, "{year}"@, 1);
    assert("{Label}"@[1] != "{Album Artist Name}"@[1]);
    other_tokens_stay(a, "{Label}"@, b, "{Album Artist Name}"@, "{albumArtist}"@, 1);
    assert("{Label}"@[1] != "{Artist Name}"@[1]);
    other_tokens_stay(a, "{Label}"@, b, "{Artist Name}"@, "{albumArtist}"@, 1);
    assert("{Label}"@[1] != "{Artists}"@[1]);
    other_tokens_stay(a, "{Label}"@, b, "{Artists}"@, "{artist}"@, 1);
    assert("{Label}"@[1] != "{Artist Disambiguation}"@[1]);
    other_tokens_stay(a, "{Label}"@, b, "{Artist Disambiguation}"@, ""@, 1);
    assert("{Label}"@[1] != "{Album Disambiguation}"@[1]);
    other_tokens_stay(a, "{Label}"@, b, "{Album Disambiguation}"@, ""@, 1);
    the_token_is_replaced(a, b, "{Label}"@, ""@);
    let plain = a + b;
    assert(a + ""@ + b =~= plain);
    assert forall|i: int| 0 <= i < plain.len() implies #[trigger] plain[i] != '{' by {
        if i >= a.len() {
            assert(plain[i] == b[i - a.len()]);
        }
    }
    plain_text_stays(plain, "{Catalog Number}"@, ""@);
    plain_text_stays(plain, "{Track Title First Character}"@, ""@);
}

/// `{Catalog Number}` is dropped, and all that is around it stays.
pub proof fn the_catalog_number_is_understood(a: Seq<char>, b: Seq<char>)
    requires
        forall|i: int| 0 <= i < a.len() ==> #[trigger] a[i] != '{',
        forall|i: int| 0 <= i < b.len() ==> #[trigger] b[i] != '{',
    ensures
        template::translated(a + "{Catalog Number}"@ + b) == a + b,
{
    reveal_strlit("{Track Title With Artist}");
    reveal_strlit("{track total:00}");
    reveal_strlit("{track total}");
    reveal_strlit("{medium total:00}");
    reveal_strlit("{medium total}");
    reveal_strlit("{track:000}");
    reveal_strlit("{track:00}");
    reveal_strlit("{medium:00}");
    reveal_strlit("{Medium Format}");
    reveal_strlit("{medium}");
    reveal_strlit("{Track Title}");
    reveal_strlit("{Recording Title}");
    reveal_strlit("{Album Title}");
    reveal_strlit("{Release Year}");
    reveal_strlit("{Release Date}");
    reveal_strlit("{Album Artist Name}");
    reveal_strlit("{Artist Name}");
    reveal_strlit("{Artists}");
    reveal_strlit("{Artist Disambiguation}");
    reveal_strlit("{Album Disambiguation}");
    reveal_strlit("{Label}");
    reveal_strlit("{Catalog Number}");
    reveal_strlit("{Track Title First Character}");
    reveal_strlit("");
    assert("{Catalog Number}"@[1] != "{Track Title With Artist}"@[1]);
    other_tokens_stay(a, "{Catalog Number}"@, b, "{Track Title With Artist}"@, "{artist} - {title}"@, 1);
    assert("{Catalog Number}"@[1] != "{track total:00}"@[1]);
    other_tokens_stay(a, "{Catalog Number}"@, b, "{track total:00}"@, "{trackTotal}"@, 1);
    assert("{Catalog Number}"@[1] != "{track total}"@[1]);
    other_tokens_stay(a, "{Catalog Number}"@, b, "{track total}"@, "{trackTotal}"@, 1);
    assert("{Catalog Number}"@[1] != "{medium total:00}"@[1]);
    other_tokens_stay(a, "{Catalog Number}"@, b, "{medium total:00}"@, "{discTotal}"@, 1);
    assert("{Catalog Number}"@[1] != "{medium total}"@[1]);
    other_tokens_stay(a, "{Catalog Number}"@, b, "{medium total}"@, "{discTotal}"@, 1);
    assert("{Catalog Number}"@[1] != "{track:000}"@[1]);
    other_tokens_stay(a, "{Catalog Number}"@, b, "{track:000}"@, "{track:03}"@, 1);
    assert("{Catalog Number}"@[1] != "{track:00}"@[1]);
    other_tokens_stay(a, "{Catalog Number}"@, b, "{track:00}"@, "{track:02}"@, 1);
    assert("{Catalog Number}"@[1] != "{medium:00}"@[1]);
    other_tokens_stay(a, "{Catalog Number}"@, b, "{medium:00}"@, "{disc:02}"@, 1);
    assert("{Catalog Number}"@[1] != "{Medium Format}"@[1]);
    other_tokens_stay(a, "{Catalog Number}"@, b, "{Medium Format}"@, "{disc}"@, 1);
    assert("{Catalog Number}"@[1] != "{medium}"@[1]);
    other_tokens_stay(a, "{Catalog Number}"@, b, "{medium}"@, "{disc}"@, 1);
    assert("{Catalog Number}"@[1] != "{Track Title}"@[1]);
    other_tokens_stay(a, "{Catalog Number}"@, b, "{Track Title}"@, "{title}"@, 1);
    assert("{Catalog Number}"@[1] != "{Recording Title}"@[1]);
    other_tokens_stay(a, "{Catalog Number}"@, b, "{Recording Title}"@, "{title}"@, 1);
    assert("{Catalog Number}"@[1] != "{Album Title}"@[1]);
    other_tokens_stay(a, "{Catalog Number}"@, b, "{Album Title}"@, "{album}"@, 1);
    assert("{Catalog Number}"@[1] != "{Release Year}"@[1]);
    other_tokens_stay(a, "{Catalog Number}"@, b, "{Release Year}"@, "{year}"@, 1);
    assert("{Catalog Number}"@[1] != "{Release Date}"@[1]);
    other_tokens_stay(a, "{Catalog Number}"@, b, "{Release Date}"@, "{year}"@, 1);
    assert("{Catalog Number}"@[1] != "{Album Artist Name}"@[1]);
    other_tokens_stay(a, "{Catalog Number}"@, b, "{Album Artist Name}"@, "{albumArtist}"@, 1);
    assert("{Catalog Number}"@[1] != "{Artist Name}"@[1]);
    other_tokens_stay(a, "{Catalog Number}"@, b, "{Artist Name}"@, "{albumArtist}"@, 1);
    assert("{Catalog Number}"@[1] != "{Artists}"@[1]);
    other_tokens_stay(a, "{Catalog Number}"@, b, "{Artists}"@, "{artist}"@, 1);
    assert("{Catalog Number}"@[1] != "{Artist Disambiguation}"@[1]);
    other_tokens_stay(a, "{Catalog Number}"@, b, "{Artist Disambiguation}"@, ""@, 1);
    assert("{Catalog Number}"@[1] != "{Album Disambiguation}"@[1]);
    other_tokens_stay(a, "{Catalog Number}"@, b, "{Album Disambiguation}"@, ""@, 1);
    assert("{Catalog Number}"@[1] != "{Label}"@[1]);
    other_tokens_stay(a, "{Catalog Number}"@, b, "{Label}"@, ""@, 1);
    the_token_is_replaced(a, b, "{Catalog Number}"@, ""@);
    let plain = a + b;
    assert(a + ""@ + b =~= plain);
    assert forall|i: int| 0 <= i < plain.len() implies #[trigger] plain[i] != '{' by {
        if i >= a.len() {
            assert(plain[i] == b[i - a.len()]);
        }
    }
    plain_text_stays(plain, "{Track Title First Character}"@, ""@);
}

/// `{Track Title First Character}` is dropped, and all that is around it stays.
pub proof fn the_first_letter_is_understood(a: Seq<char>, b: Seq<char>)
    requires
        forall|i: int| 0 <= i < a.len() ==> #[trigger] a[i] != '{',
        forall|i: int| 0 <= i < b.len() ==> #[trigger] b[i] != '{',
    ensures
        template::translated(a + "{Track Title First Character}"@ + b) == a + b,
{
    reveal_strlit("{Track Title With Artist}");
    reveal_strlit("{track total:00}");
    reveal_strlit("{track total}");
    reveal_strlit("{medium total:00}");
    reveal_strlit("{medium total}");
    reveal_strlit("{track:000}");
    reveal_strlit("{track:00}");
    reveal_strlit("{medium:00}");
    reveal_strlit("{Medium Format}");
    reveal_strlit("{medium}");
    reveal_strlit("{Track Title}");
    reveal_strlit("{Recording Title}");
    reveal_strlit("{Album Title}");
    reveal_strlit("{Release Year}");
    reveal_strlit("{Release Date}");
    reveal_strlit("{Album Artist Name}");
    reveal_strlit("{Artist Name}");
    reveal_strlit("{Artists}");
    reveal_strlit("{Artist Disambiguation}");
    reveal_strlit("{Album Disambiguation}");
    reveal_strlit("{Label}");
    reveal_strlit("{Catalog Number}");
    reveal_strlit("{Track Title First Character}");
    reveal_strlit("");
    assert("{Track Title First Character}"@[13] != "{Track Title With Artist}"@[13]);
    other_tokens_stay(a, "{Track Title First Character}"@, b, "{Track Title With Artist}"@, "{artist} - {title}"@, 13);
    assert("{Track Title First Character}"@[1] != "{track total:00}"@[1]);
    other_tokens_stay(a, "{Track Title First Character}"@, b, "{track total:00}"@, "{trackTotal}"@, 1);
    assert("{Track Title First Character}"@[1] != "{track total}"@[1]);
    other_tokens_stay(a, "{Track Title First Character}"@, b, "{track total}"@, "{trackTotal}"@, 1);
    assert("{Track Title First Character}"@[1] != "{medium total:00}"@[1]);
    other_tokens_stay(a, "{Track Title First Character}"@, b, "{medium total:00}"@, "{discTotal}"@, 1);
    assert("{Track Title First Character}"@[1] != "{medium total}"@[1]);
    other_tokens_stay(a, "{Track Title First Character}"@, b, "{medium total}"@, "{discTotal}"@, 1);
    assert("{Track Title First Character}"@[1] != "{track:000}"@[1]);
    other_tokens_stay(a, "{Track Title First Character}"@, b, "{track:000}"@, "{track:03}"@, 1);
    assert("{Track Title First Character}"@[1] != "{track:00}"@[1]);
    other_tokens_stay(a, "{Track Title First Character}"@, b, "{track:00}"@, "{track:02}"@, 1);
    assert("{Track Title First Character}"@[1] != "{medium:00}"@[1]);
    other_tokens_stay(a, "{Track Title First Character}"@, b, "{medium:00}"@, "{disc:02}"@, 1);
    assert("{Track Title First Character}"@[1] != "{Medium Format}"@[1]);
    other_tokens_stay(a, "{Track Title First Character}"@, b, "{Medium Format}"@, "{disc}"@, 1);
    assert("{Track Title First Character}"@[1] != "{medium}"@[1]);
    other_tokens_stay(a, "{Track Title First Character}"@, b, "{medium}"@, "{disc}"@, 1);
    assert("{Track Title First Character}"@[12] != "{Track Title}"@[12]);
    other_tokens_stay(a, "{Track Title First Character}"@, b, "{Track Title}"@, "{title}"@, 12);
    assert("{Track Title First Character}"@[1] != "{Recording Title}"@[1]);
    other_tokens_stay(a, "{Track Title First Character}"@, b, "{Recording Title}"@, "{title}"@, 1);
    assert("{Track Title First Character}"@[1] != "{Album Title}"@[1]);
    other_tokens_stay(a, "{Track Title First Character}"@, b, "{Album Title}"@, "{album}"@, 1);
    assert("{Track Title First Character}"@[1] != "{Release Year}"@[1]);
    other_tokens_stay(a, "{Track Title First Character}"@, b, "{Release Year}"@, "{year}"@, 1);
    assert("{Track Title First Character}"@[1] != "{Release Date}"@[1]);
    other_tokens_stay(a, "{Track Title First Character}"@, b, "{Release Date}"@, "{year}"@, 1);
    assert("{Track Title First Character}"@[1] != "{Album Artist Name}"@[1]);
    other_tokens_stay(a, "{Track Title First Character}"@, b, "{Album Artist Name}"@, "{albumArtist}"@, 1);
    assert("{Track Title First Character}"@[1] != "{Artist Name}"@[1]);
    other_tokens_stay(a, "{Track Title First Character}"@, b, "{Artist Name}"@, "{albumArtist}"@, 1);
    assert("{Track Title First Character}"@[1] != "{Artists}"@[1]);
    other_tokens_stay(a, "{Track Title First Character}"@, b, "{Artists}"@, "{artist}"@, 1);
    assert("{Track Title First Character}"@[1] != "{Artist Disambiguation}"@[1]);
    other_tokens_stay(a, "{Track Title First Character}"@, b, "{Artist Disambiguation}"@, ""@, 1);
    assert("{Track Title First Character}"@[1] != "{Album Disambiguation}"@[1]);
    other_tokens_stay(a, "{Track Title First Character}"@, b, "{Album Disambiguation}"@, ""@, 1);
    assert("{Track Title First Character}"@[1] != "{Label}"@[1]);
    other_tokens_stay(a, "{Track Title First Character}"@, b, "{Label}"@, ""@, 1);
    assert("{Track Title First Character}"@[1] != "{Catalog Number}"@[1]);
    other_tokens_stay(a, "{Track Title First Character}"@, b, "{Catalog Number}"@, ""@, 1);
    the_token_is_replaced(a, b, "{Track Title First Character}"@, ""@);
    let plain = a + b;
    assert(a + ""@ + b =~= plain);
    assert forall|i: int| 0 <= i < plain.len() implies #[trigger] plain[i] != '{' by {
        if i >= a.len() {
            assert(plain[i] == b[i - a.len()]);
        }
    }
}

} // verus!
