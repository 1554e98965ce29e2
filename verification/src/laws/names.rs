//! What becomes of a text that is made into a name of a file or a folder.

use crate::template;
use crate::template::SanitizeOptions;
use crate::text;
use vstd::prelude::*;

verus! {

/// A character that no name may hold.
pub open spec fn illegal(c: char) -> bool {
    c == '\\' || c == '/' || c == ':' || c == '*' || c == '?' || c == '"' || c == '<' || c == '>' || c
        == '|'
}

proof fn ends_are_stripped(s: Seq<char>)
    ensures
        template::bare(s).len() <= s.len(),
        template::bare(s) == s.take(template::bare(s).len() as int),
        template::bare(s).len() > 0 ==> template::bare(s).last() != '.' && template::bare(s).last()
            != ' ',
        forall|i: int| template::bare(s).len() <= i < s.len() ==> #[trigger] s[i] == '.' || s[i] == ' ',
{
    reveal_strlit(". ");
    text::strip_back_is_prefix(s, text::among(". "@));
    assert(". "@[0] == '.' && ". "@[1] == ' ');
    assert forall|i: int| template::bare(s).len() <= i < s.len() implies #[trigger] s[i] == '.' || s[i]
        == ' ' by {
        assert(text::among(". "@)(s[i]));
        let k = choose|k: int| 0 <= k < ". "@.len() && ". "@[k] == s[i];
    }
}

/// A name that is already one is kept as it is: no illegal or control character, no dot or space at
/// its end, no device, and not too long.
pub proof fn good_names_are_kept(s: Seq<char>, opts: SanitizeOptions)
    requires
        forall|i: int| 0 <= i < s.len() ==> !illegal(#[trigger] s[i]) && s[i] as u32 >= 32,
        s.len() > 0 ==> s.last() != '.' && s.last() != ' ',
        !template::reserved_windows(s),
        s.len() <= opts.max_name_length,
    ensures
        template::sanitized(s, opts) == s,
{
    let c = template::cleaned(s, opts.illegal_char_replacement);
    assert(c =~= s);
    ends_are_stripped(s);
    if s.len() > 0 {
        assert(template::bare(s).len() == s.len()) by {
            if template::bare(s).len() < s.len() {
                assert(s[s.len() - 1] == '.' || s[s.len() - 1] == ' ');
            }
        }
    }
    assert(template::bare(s) =~= s);
}

/// Every other text is changed no more than it has to be: illegal characters are replaced one by one,
/// control characters become spaces, every other character stays in its place, and only dots and
/// spaces at the end are dropped.
pub proof fn names_stay_as_close_as_they_can(s: Seq<char>, opts: SanitizeOptions)
    requires
        s.len() <= opts.max_name_length,
        !template::reserved_windows(
            template::bare(template::cleaned(s, opts.illegal_char_replacement)),
        ),
    ensures
        ({
            let r = template::sanitized(s, opts);
            &&& r.len() <= s.len()
            &&& forall|i: int|
                0 <= i < r.len() ==> #[trigger] r[i] == if illegal(s[i]) {
                    opts.illegal_char_replacement
                } else if (s[i] as u32) < 32 {
                    ' '
                } else {
                    s[i]
                }
            &&& forall|i: int|
                r.len() <= i < s.len() ==> {
                    ||| #[trigger] s[i] == '.'
                    ||| s[i] == ' '
                    ||| (s[i] as u32) < 32
                    ||| illegal(s[i]) && (opts.illegal_char_replacement == '.'
                        || opts.illegal_char_replacement == ' ')
                }
        }),
{
    let c = template::cleaned(s, opts.illegal_char_replacement);
    ends_are_stripped(c);
    let r = template::sanitized(s, opts);
    assert(r == template::bare(c));
    assert forall|i: int| r.len() <= i < s.len() implies {
        ||| #[trigger] s[i] == '.'
        ||| s[i] == ' '
        ||| (s[i] as u32) < 32
        ||| illegal(s[i]) && (opts.illegal_char_replacement == '.' || opts.illegal_char_replacement
            == ' ')
    } by {
        assert(c[i] == '.' || c[i] == ' ');
    }
}

/// A name that is too long is cut: what is left is the beginning of the name, but for dots and
/// spaces at the place where it was cut, or the word `trimmed` where only these are left.
pub proof fn long_names_are_cut(s: Seq<char>, opts: SanitizeOptions)
    requires
        forall|i: int| 0 <= i < s.len() ==> !illegal(#[trigger] s[i]) && s[i] as u32 >= 32,
        s.len() > opts.max_name_length,
        s.last() != '.' && s.last() != ' ',
        !template::reserved_windows(s),
    ensures
        ({
            let r = template::sanitized(s, opts);
            let max = opts.max_name_length as int;
            ||| r.len() <= max && r == s.take(r.len() as int) && forall|i: int|
                r.len() <= i < max ==> #[trigger] s[i] == '.' || s[i] == ' '
            ||| r == "trimmed"@ && forall|i: int|
                0 <= i < max ==> #[trigger] s[i] == '.' || s[i] == ' '
        }),
{
    let c = template::cleaned(s, opts.illegal_char_replacement);
    assert(c =~= s);
    ends_are_stripped(s);
    assert(template::bare(s).len() == s.len()) by {
        if template::bare(s).len() < s.len() {
            assert(s[s.len() - 1] == '.' || s[s.len() - 1] == ' ');
        }
    }
    assert(template::bare(s) =~= s);
    let max = opts.max_name_length as int;
    let cut = s.take(max);
    ends_are_stripped(cut);
    let r = template::bare(cut);
    assert forall|i: int| r.len() <= i < max implies #[trigger] s[i] == '.' || s[i] == ' ' by {
        assert(cut[i] == s[i]);
    }
    assert(r =~= s.take(r.len() as int));
}

/// The names that Windows keeps for its devices get an underscore in front, in whatever case and
/// whatever follows a dot.
pub proof fn device_names_get_an_underscore(s: Seq<char>, opts: SanitizeOptions)
    requires
        forall|i: int| 0 <= i < s.len() ==> !illegal(#[trigger] s[i]) && s[i] as u32 >= 32,
        s.len() > 0,
        s.last() != '.' && s.last() != ' ',
        s.len() < opts.max_name_length,
        template::device_base(s) == "CON"@ || template::device_base(s) == "PRN"@
            || template::device_base(s) == "AUX"@ || template::device_base(s) == "NUL"@,
    ensures
        template::sanitized(s, opts) == seq!['_'] + s,
{
    let c = template::cleaned(s, opts.illegal_char_replacement);
    assert(c =~= s);
    ends_are_stripped(s);
    assert(template::bare(s).len() == s.len()) by {
        if template::bare(s).len() < s.len() {
            assert(s[s.len() - 1] == '.' || s[s.len() - 1] == ' ');
        }
    }
    assert(template::bare(s) =~= s);
}

} // verus!
