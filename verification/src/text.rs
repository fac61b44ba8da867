//! Questions about text that the feed asks of addresses and bodies.

use vstd::prelude::*;

verus! {

/// Whether `c` is white space: the characters that Unicode gives the
/// property `White_Space`.
pub open spec fn is_white_space(c: char) -> bool {
    let code = c as u32;
    ||| 0x09 <= code <= 0x0D
    ||| code == 0x20
    ||| code == 0x85
    ||| code == 0xA0
    ||| code == 0x1680
    ||| 0x2000 <= code <= 0x200A
    ||| code == 0x2028
    ||| code == 0x2029
    ||| code == 0x202F
    ||| code == 0x205F
    ||| code == 0x3000
}

/// `text` without the white space it starts with.
pub open spec fn trim_start(text: Seq<char>) -> Seq<char>
    decreases text.len(),
{
    if text.len() > 0 && is_white_space(text.first()) {
        trim_start(text.drop_first())
    } else {
        text
    }
}

/// `text` without the white space it ends with.
pub open spec fn trim_end(text: Seq<char>) -> Seq<char>
    decreases text.len(),
{
    if text.len() > 0 && is_white_space(text.last()) {
        trim_end(text.drop_last())
    } else {
        text
    }
}

/// `text` without the white space at either end.
pub open spec fn trimmed(text: Seq<char>) -> Seq<char> {
    trim_end(trim_start(text))
}

/// Whether `text` holds nothing but white space.
pub open spec fn blank(text: Seq<char>) -> bool {
    forall|i: int| 0 <= i < text.len() ==> is_white_space(#[trigger] text[i])
}

/// Trimming the start leaves nothing exactly when the text is blank.
proof fn lemma_trim_start_blank(text: Seq<char>)
    ensures
        trim_start(text).len() == 0 <==> blank(text),
        trim_start(text).len() > 0 ==> !is_white_space(trim_start(text).first()),
    decreases text.len(),
{
    if text.len() > 0 && is_white_space(text.first()) {
        let rest = text.drop_first();
        lemma_trim_start_blank(rest);
        if blank(rest) {
            assert forall|i: int| 0 <= i < text.len() implies is_white_space(
                #[trigger] text[i],
            ) by {
                if i > 0 {
                    assert(text[i] == rest[i - 1]);
                }
            }
        } else {
            let i = choose|i: int| 0 <= i < rest.len() && !is_white_space(#[trigger] rest[i]);
            assert(text[i + 1] == rest[i]);
        }
    } else if text.len() > 0 {
        assert(text[0] == text.first());
    }
}

/// Trimming the end leaves nothing exactly when the text is blank.
proof fn lemma_trim_end_blank(text: Seq<char>)
    ensures
        trim_end(text).len() == 0 <==> blank(text),
    decreases text.len(),
{
    if text.len() > 0 && is_white_space(text.last()) {
        let rest = text.drop_last();
        lemma_trim_end_blank(rest);
        if blank(rest) {
            assert forall|i: int| 0 <= i < text.len() implies is_white_space(
                #[trigger] text[i],
            ) by {
                if i < rest.len() {
                    assert(text[i] == rest[i]);
                }
            }
        } else {
            let i = choose|i: int| 0 <= i < rest.len() && !is_white_space(#[trigger] rest[i]);
            assert(text[i] == rest[i]);
        }
    } else if text.len() > 0 {
        assert(text[text.len() - 1] == text.last());
    }
}

/// Trimming both ends leaves nothing exactly when the text is blank.
pub proof fn lemma_trimmed_empty_iff_blank(text: Seq<char>)
    ensures
        trimmed(text).len() == 0 <==> blank(text),
{
    lemma_trim_start_blank(text);
    let rest = trim_start(text);
    lemma_trim_end_blank(rest);
    if rest.len() > 0 {
        assert(rest[0] == rest.first());
    }
}

/// `str::trim`: the text without the white space at either end.
#[verifier::external_body]
fn trim(text: &str) -> (rest: &str)
    ensures
        rest@ == trimmed(text@),
{
    text.trim()
}

/// `str::starts_with`: whether the text begins with `prefix`.
#[verifier::external_body]
pub(crate) fn starts_with(text: &str, prefix: &str) -> (begins: bool)
    ensures
        begins == prefix@.is_prefix_of(text@),
{
    text.starts_with(prefix)
}

/// Whether `text` holds nothing but white space; true of the empty text.
pub fn is_blank(text: &str) -> (answer: bool)
    ensures
        answer == blank(text@),
{
    proof {
        lemma_trimmed_empty_iff_blank(text@);
    }
    trim(text).is_empty()
}

} // verus!
