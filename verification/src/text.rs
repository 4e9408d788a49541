//! Small steps on `String` and `str` that the rest of the crate builds on.

use vstd::prelude::*;

verus! {

/// Appends one character to `s`.
///
/// Trusted: calls `String::push` of std, which is documented to append the
/// given `char` to the end of the string.
#[verifier::external_body]
pub(crate) fn push_char(s: &mut String, c: char)
    ensures
        final(s)@ == old(s)@.push(c),
{
    s.push(c)
}

/// The bytes of `text` where each stands for one character, or `None` where
/// `text` holds a character outside ASCII.
pub(crate) fn ascii_bytes(text: &str) -> (bytes: Option<&[u8]>)
    ensures
        bytes is Some <==> vstd::string::is_ascii(text),
        bytes matches Some(b) ==> {
            &&& b@.len() == text@.len()
            &&& forall|i: int| 0 <= i < b@.len() ==> #[trigger] b@[i] == text@[i] as u8
            &&& forall|i: int| 0 <= i < b@.len() ==> #[trigger] b@[i] < 128
        },
{
    if text.is_ascii() {
        let b = text.as_bytes();
        proof {
            vstd::string::is_ascii_spec_bytes(text);
            assert(b@ =~= Seq::new(text@.len(), |i: int| text@[i] as u8));
            assert forall|i: int| 0 <= i < b@.len() implies #[trigger] b@[i] < 128 by {
                assert('\0' <= text@[i] <= '\u{7f}');
            }
        }
        Some(b)
    } else {
        None
    }
}

/// Whether two texts hold the same characters.
pub(crate) fn same_text(a: &str, b: &str) -> (same: bool)
    ensures
        same == (a@ == b@),
{
    let left = String::from_str(a);
    let right = String::from_str(b);
    left == right
}

} // verus!
