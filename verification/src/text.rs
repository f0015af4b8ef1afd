//! Small helpers on strings, stated over their character sequences.

use vstd::prelude::*;
use vstd::utf8::{decode_utf8, valid_utf8};

verus! {

/// The texts behind a list of borrowed strings.
pub open spec fn str_views(texts: Seq<&str>) -> Seq<Seq<char>> {
    texts.map_values(|t: &str| t@)
}

/// The texts of a list of strings.
pub open spec fn string_views(texts: Seq<String>) -> Seq<Seq<char>> {
    texts.map_values(|t: String| t@)
}

/// Whether two strings hold the same characters.
pub fn str_eq(a: &str, b: &str) -> (r: bool)
    ensures
        r == (a@ == b@),
{
    String::from_str(a) == String::from_str(b)
}

/// The words of a list written one after the other, with `sep` between
/// each two.
pub open spec fn joined(words: Seq<Seq<char>>, sep: Seq<char>) -> Seq<char>
    decreases words.len(),
{
    if words.len() == 0 {
        Seq::empty()
    } else if words.len() == 1 {
        words[0]
    } else {
        joined(words.drop_last(), sep) + sep + words.last()
    }
}

/// The words of a list written one after the other, with `sep` between
/// each two.
pub fn join_words(words: &[String], sep: &str) -> (r: String)
    ensures
        r@ == joined(string_views(words@), sep@),
{
    let ghost all = string_views(words@);
    let mut out = String::new();
    let mut i: usize = 0;
    assert(all.take(0) =~= Seq::empty());
    while i < words.len()
        invariant
            i <= words.len(),
            all == string_views(words@),
            out@ == joined(all.take(i as int), sep@),
        decreases words.len() - i,
    {
        let ghost before = all.take(i as int);
        if i > 0 {
            out.append(sep);
        }
        out.append(words[i].as_str());
        proof {
            let now = all.take(i + 1);
            assert(now.drop_last() =~= before);
            assert(now.last() == words@[i as int]@);
            if i == 0 {
                assert(out@ =~= now[0]);
            }
        }
        i += 1;
    }
    assert(all.take(words.len() as int) =~= all);
    out
}

/// What `String::from_utf8_lossy` makes of bytes: the text that they
/// encode, with a replacement character for each run of bytes that encodes
/// nothing.
pub uninterp spec fn utf8_lossy(bytes: Seq<u8>) -> Seq<char>;

/// Calls `String::from_utf8_lossy`. The contract names the outcome, and
/// states what the documentation of the function promises: bytes that are
/// valid UTF-8 come back as the text that they encode.
#[verifier::external_body]
fn decode_lossy(bytes: &[u8]) -> (r: String)
    ensures
        r@ == utf8_lossy(bytes@),
        valid_utf8(bytes@) ==> r@ == decode_utf8(bytes@),
{
    String::from_utf8_lossy(bytes).into_owned()
}

/// The text that `bytes` encode, with a replacement character wherever
/// they encode nothing.
pub fn to_str(bytes: &[u8]) -> (r: String)
    ensures
        r@ == utf8_lossy(bytes@),
        valid_utf8(bytes@) ==> r@ == decode_utf8(bytes@),
{
    decode_lossy(bytes)
}

/// Whether `char::is_whitespace` holds of a character: whether Unicode
/// lists it as white space.
pub uninterp spec fn is_white_space(c: char) -> bool;

/// Calls `char::is_whitespace`. The contract only names the outcome.
#[verifier::external_body]
fn char_is_whitespace(c: char) -> (r: bool)
    ensures
        r == is_white_space(c),
{
    c.is_whitespace()
}

/// The length of `text` without the white space at its end.
pub open spec fn trimmed_len(text: Seq<char>) -> int
    decreases text.len(),
{
    if text.len() == 0 {
        0
    } else if is_white_space(text.last()) {
        trimmed_len(text.drop_last())
    } else {
        text.len() as int
    }
}

/// `text` without the white space at its end.
pub open spec fn trimmed_right(text: Seq<char>) -> Seq<char> {
    text.subrange(0, trimmed_len(text))
}

/// The trimmed length of a text is that of any prefix which leaves out
/// nothing but white space.
proof fn trimmed_len_of_prefix(text: Seq<char>, n: int)
    requires
        0 <= n <= text.len(),
        forall|k: int| n <= k < text.len() ==> is_white_space(text[k]),
    ensures
        trimmed_len(text) == trimmed_len(text.subrange(0, n)),
    decreases text.len() - n,
{
    if n == text.len() {
        assert(text.subrange(0, n) =~= text);
    } else {
        trimmed_len_of_prefix(text.drop_last(), n);
        assert(text.drop_last().subrange(0, n) =~= text.subrange(0, n));
    }
}

/// `text` without the white space at its end.
pub fn trim_right(text: &str) -> (r: String)
    ensures
        r@ == trimmed_right(text@),
{
    let len = text.unicode_len();
    let mut n: usize = len;
    while n > 0 && char_is_whitespace(text.get_char(n - 1))
        invariant
            n <= len,
            len == text@.len(),
            forall|k: int| n <= k < len ==> is_white_space(text@[k]),
        decreases n,
    {
        n -= 1;
    }
    proof {
        trimmed_len_of_prefix(text@, n as int);
        if n > 0 {
            assert(text@.subrange(0, n as int).last() == text@[n - 1]);
        }
    }
    String::from_str(text.substring_char(0, n))
}

} // verus!
