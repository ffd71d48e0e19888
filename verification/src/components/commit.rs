//! Display helpers of the commit viewer's titles and bands.
use crate::text::{chars_of, push_char, slice_chars, string_of};
use vstd::prelude::*;
use vstd::string::StringSliceAdditionalSpecFns;
use vstd::utf8::is_char_boundary;

verus! {

/// The byte length of a sha's display form: seven bytes, or the whole
/// of a shorter sha.
pub open spec fn short_bytes(b: Seq<u8>) -> int {
    if b.len() < 7 {
        b.len() as int
    } else {
        7
    }
}

/// The sha's 7-char display form.
pub fn short(sha: &str) -> (r: &str)
    requires
        is_char_boundary(sha.spec_bytes(), short_bytes(sha.spec_bytes())),
    ensures
        r.spec_bytes() == sha.spec_bytes().take(short_bytes(sha.spec_bytes())),
{
    let b = sha.as_bytes();
    let m = if b.len() < 7 { b.len() } else { 7 };
    let (head, _) = sha.split_at(m);
    head
}

/// A path trimmed from the left to fit `max` chars: an ellipsis and
/// the path's last `max - 1` chars (just the ellipsis when `max` is
/// zero); a path that fits is kept whole.
pub open spec fn spec_truncate_path(path: Seq<char>, max: int) -> Seq<char> {
    if path.len() <= max {
        path
    } else if max >= 1 {
        seq!['…'] + path.skip(path.len() + 1 - max)
    } else {
        seq!['…']
    }
}

/// A path trimmed from the left for tight titles: the roots carry the
/// meaning (`…/components/commit/mod.rs`).
pub fn truncate_path(path: &str, max: usize) -> (r: String)
    ensures
        r@ == spec_truncate_path(path@, max as int),
{
    let cs = chars_of(path);
    let count = cs.len();
    if count <= max {
        return string_of(cs.as_slice());
    }
    let mut out = String::new();
    push_char(&mut out, '…');
    if max >= 1 {
        let from = count - (max - 1);
        let tail = slice_chars(cs.as_slice(), from, count);
        assert(tail@ =~= path@.skip(path@.len() + 1 - max));
        crate::text::push_str(&mut out, string_of(tail.as_slice()).as_str());
    }
    out
}

} // verus!
