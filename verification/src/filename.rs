//! File names for exported sheets.

use vstd::prelude::*;

verus! {

/// A character that may stand in a file name as it is: an ASCII letter or
/// digit, a hyphen or an underscore.
pub open spec fn is_plain(c: char) -> bool {
    ||| 'a' <= c <= 'z'
    ||| 'A' <= c <= 'Z'
    ||| '0' <= c <= '9'
    ||| c == '-'
    ||| c == '_'
}

/// What stands for `c` in a file name: `c` itself if it is plain, an
/// underscore if not.
pub open spec fn sanitized_char(c: char) -> char {
    if is_plain(c) {
        c
    } else {
        '_'
    }
}

/// `name` with every character replaced by what stands for it.
pub open spec fn sanitized(name: Seq<char>) -> Seq<char> {
    name.map_values(|c: char| sanitized_char(c))
}

/// Calls `String::push`. Trusted: the character is appended and nothing
/// else changes.
#[verifier::external_body]
fn push_char(text: &mut String, c: char)
    ensures
        final(text)@ == old(text)@.push(c),
{
    text.push(c)
}

/// Decides whether `c` may stand in a file name as it is.
pub fn plain(c: char) -> (yes: bool)
    ensures
        yes == is_plain(c),
{
    ('a' <= c && c <= 'z') || ('A' <= c && c <= 'Z') || ('0' <= c && c <= '9') || c == '-' || c
        == '_'
}

/// Makes a sheet's title fit for a file name: every character that is not
/// an ASCII letter or digit, a hyphen or an underscore becomes an
/// underscore. The length in characters stays.
pub fn sanitize(name: &str) -> (clean: String)
    ensures
        clean@ == sanitized(name@),
{
    let mut clean = String::new();
    for c in it: name.chars()
        invariant
            it.seq() == name@,
            clean@ =~= sanitized(name@.take(it.index())),
    {
        if plain(c) {
            push_char(&mut clean, c);
        } else {
            push_char(&mut clean, '_');
        }
    }
    assert(name@.take(name@.len() as int) =~= name@);
    clean
}

} // verus!
