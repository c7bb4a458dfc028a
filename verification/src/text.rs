//! Text rules shared by the server and the client: what counts as white space
//! and as a blank entry, and how a relayed line is written.

use vstd::prelude::*;
use vstd::string::*;

verus! {

/// The characters that Unicode gives the property White_Space.
pub open spec fn white_space(c: char) -> bool {
    ||| '\u{9}' <= c <= '\u{d}'
    ||| c == ' '
    ||| c == '\u{85}'
    ||| c == '\u{a0}'
    ||| c == '\u{1680}'
    ||| '\u{2000}' <= c <= '\u{200a}'
    ||| c == '\u{2028}'
    ||| c == '\u{2029}'
    ||| c == '\u{202f}'
    ||| c == '\u{205f}'
    ||| c == '\u{3000}'
}

/// `text` without the white space it begins with.
pub open spec fn trim_start(text: Seq<char>) -> Seq<char>
    decreases text.len(),
{
    if text.len() > 0 && white_space(text[0]) {
        trim_start(text.drop_first())
    } else {
        text
    }
}

/// `text` without the white space it ends with.
pub open spec fn trim_end(text: Seq<char>) -> Seq<char>
    decreases text.len(),
{
    if text.len() > 0 && white_space(text.last()) {
        trim_end(text.drop_last())
    } else {
        text
    }
}

/// `text` without the white space at either end.
pub open spec fn trimmed(text: Seq<char>) -> Seq<char> {
    trim_end(trim_start(text))
}

/// A blank text: empty, or white space only.
pub open spec fn is_blank(text: Seq<char>) -> bool {
    forall|i: int| 0 <= i < text.len() ==> white_space(text[i])
}

/// The two characters between the sender's name and the body of a relayed line.
pub open spec fn separator() -> Seq<char> {
    seq![':', ' ']
}

/// The line that relays `body` as said by `name`.
pub open spec fn line_of(name: Seq<char>, body: Seq<char>) -> Seq<char> {
    name + separator() + body
}

/// `str::trim` returns its argument without the leading and the trailing
/// characters that have the Unicode property White_Space.
pub assume_specification[ str::trim ](text: &str) -> (rest: &str)
    ensures
        rest@ == trimmed(text@),
;

/// Nothing is left of a text without its leading white space exactly when the
/// text is blank; what is left begins with a character that is none.
pub proof fn lemma_trim_start(text: Seq<char>)
    ensures
        trim_start(text).len() == 0 <==> is_blank(text),
        trim_start(text).len() > 0 ==> !white_space(trim_start(text)[0]),
    decreases text.len(),
{
    if text.len() > 0 && white_space(text[0]) {
        let rest = text.drop_first();
        lemma_trim_start(rest);
        if is_blank(text) {
            assert forall|i: int| 0 <= i < rest.len() implies white_space(rest[i]) by {
                assert(rest[i] == text[i + 1]);
            }
        }
        if is_blank(rest) {
            assert forall|i: int| 0 <= i < text.len() implies white_space(text[i]) by {
                if i > 0 {
                    assert(text[i] == rest[i - 1]);
                }
            }
        }
    } else if text.len() > 0 {
        assert(!white_space(text[0]));
    }
}

/// A text that begins with a character that is no white space keeps that
/// character when its trailing white space goes.
pub proof fn lemma_trim_end_keeps_start(text: Seq<char>)
    requires
        text.len() > 0,
        !white_space(text[0]),
    ensures
        trim_end(text).len() > 0,
        trim_end(text)[0] == text[0],
    decreases text.len(),
{
    if white_space(text.last()) {
        let rest = text.drop_last();
        assert(rest.len() > 0);
        assert(rest[0] == text[0]);
        lemma_trim_end_keeps_start(rest);
    }
}

/// Trimming leaves nothing exactly of the blank texts.
pub proof fn lemma_trimmed_empty_iff_blank(text: Seq<char>)
    ensures
        trimmed(text).len() == 0 <==> is_blank(text),
{
    lemma_trim_start(text);
    if trim_start(text).len() > 0 {
        lemma_trim_end_keeps_start(trim_start(text));
    }
}

/// Trimming does not change a text that neither begins nor ends with white
/// space.
pub proof fn lemma_trimmed_unchanged(text: Seq<char>)
    requires
        text.len() > 0,
        !white_space(text[0]),
        !white_space(text.last()),
    ensures
        trimmed(text) == text,
        !is_blank(text),
{
}

/// Whether `text` is blank.
pub fn blank(text: &str) -> (b: bool)
    ensures
        b == is_blank(text@),
{
    proof {
        lemma_trimmed_empty_iff_blank(text@);
    }
    text.trim().is_empty()
}

/// Writes the line that relays `body` as said by `name`: the name, a colon, a
/// space, the body.
pub fn relay_line(name: &str, body: &str) -> (line: String)
    ensures
        line@ == line_of(name@, body@),
{
    proof {
        reveal_strlit(": ");
    }
    let line = String::from_str(name).concat(": ").concat(body);
    assert(": "@ =~= separator());
    line
}

} // verus!
