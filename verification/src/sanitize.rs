//! Untrusted bytes at the display boundary: blob text is decoded
//! leniently and stripped of terminal control characters before it is
//! shown or searched; names lose every control character.
use crate::text::{push_char, string_of};
use vstd::prelude::*;
use vstd::utf8::{decode_utf8, valid_utf8};

verus! {

/// What `String::from_utf8_lossy` yields: the decoded text with
/// U+FFFD in place of each invalid sequence.
pub uninterp spec fn utf8_lossy(b: Seq<u8>) -> Seq<char>;

/// `String::from_utf8_lossy`: lossy decoding, named `utf8_lossy`;
/// valid UTF-8 decodes exactly.
#[verifier::external_body]
fn from_utf8_lossy(b: &[u8]) -> (r: String)
    ensures
        r@ == utf8_lossy(b@),
        valid_utf8(b@) ==> r@ == decode_utf8(b@),
{
    String::from_utf8_lossy(b).into_owned()
}

/// Binary content: a NUL byte anywhere.
pub open spec fn spec_is_binary(b: Seq<u8>) -> bool {
    exists|i: int| 0 <= i < b.len() && b[i] == 0
}

/// Does the blob look binary?
pub fn is_binary(bytes: &[u8]) -> (r: bool)
    ensures
        r == spec_is_binary(bytes@),
{
    let mut i: usize = 0;
    while i < bytes.len()
        invariant
            i <= bytes@.len(),
            forall|k: int| 0 <= k < i ==> bytes@[k] != 0,
        decreases bytes.len() - i,
    {
        if bytes[i] == 0 {
            return true;
        }
        i += 1;
    }
    false
}

/// C0 controls and DEL.
pub open spec fn is_control(c: char) -> bool {
    (c as u32) < 0x20 || c == '\x7f'
}

/// Kept in multi-line text: everything but controls, except newline
/// and tab.
pub open spec fn keep_in_text(c: char) -> bool {
    !is_control(c) || c == '\n' || c == '\t'
}

/// Display-safe text of a blob.
pub open spec fn spec_sanitize(b: Seq<u8>) -> Seq<char> {
    utf8_lossy(b).filter(|c: char| keep_in_text(c))
}

/// Display-safe one-line name.
pub open spec fn spec_sanitize_inline(s: Seq<char>) -> Seq<char> {
    s.filter(|c: char| !is_control(c))
}

fn keep_filtered(cs: &[char], inline: bool) -> (r: String)
    ensures
        inline ==> r@ == cs@.filter(|c: char| !is_control(c)),
        !inline ==> r@ == cs@.filter(|c: char| keep_in_text(c)),
{
    let mut s = String::new();
    let mut i: usize = 0;
    while i < cs.len()
        invariant
            i <= cs@.len(),
            inline ==> s@ == cs@.take(i as int).filter(|c: char| !is_control(c)),
            !inline ==> s@ == cs@.take(i as int).filter(|c: char| keep_in_text(c)),
        decreases cs.len() - i,
    {
        let c = cs[i];
        proof {
            reveal(Seq::filter);
            assert(cs@.take(i + 1).drop_last() =~= cs@.take(i as int));
        }
        let control = (c as u32) < 0x20 || c == '\x7f';
        if !control || (!inline && (c == '\n' || c == '\t')) {
            push_char(&mut s, c);
        }
        i += 1;
    }
    assert(cs@.take(cs@.len() as int) =~= cs@);
    s
}

/// Decode a blob for display and search.
pub fn sanitize(bytes: &[u8]) -> (r: String)
    ensures
        r@ == spec_sanitize(bytes@),
        valid_utf8(bytes@) ==> r@ == decode_utf8(bytes@).filter(|c: char| keep_in_text(c)),
{
    let text = from_utf8_lossy(bytes);
    let cs = crate::text::chars_of(text.as_str());
    keep_filtered(cs.as_slice(), false)
}

/// A name safe for a single display line.
pub fn sanitize_inline(name: &str) -> (r: String)
    ensures
        r@ == spec_sanitize_inline(name@),
{
    let cs = crate::text::chars_of(name);
    keep_filtered(cs.as_slice(), true)
}

/// Sanitized text holds no control character but newline and tab, and
/// a sanitized name none at all: nothing that reaches the terminal can
/// drive it.
pub proof fn lemma_sanitized_is_display_safe(b: Seq<u8>, name: Seq<char>)
    ensures
        forall|i: int| 0 <= i < spec_sanitize(b).len() ==> keep_in_text(#[trigger] spec_sanitize(b)[i]),
        forall|i: int| 0 <= i < spec_sanitize_inline(name).len() ==> !is_control(
            #[trigger] spec_sanitize_inline(name)[i],
        ),
{
    crate::text::lemma_filter_all_satisfy(utf8_lossy(b), |c: char| keep_in_text(c));
    crate::text::lemma_filter_all_satisfy(name, |c: char| !is_control(c));
}

/// Text that is already display-safe passes sanitizing unchanged: a
/// decoded blob whose every char is kept is kept whole.
pub proof fn lemma_clean_text_passes_unchanged(text: Seq<char>)
    requires
        forall|i: int| 0 <= i < text.len() ==> keep_in_text(#[trigger] text[i]),
    ensures
        text.filter(|c: char| keep_in_text(c)) == text,
{
    crate::text::lemma_filter_keeps_all(text, |c: char| keep_in_text(c));
}

/// A name without control characters is its own sanitized form.
pub proof fn lemma_clean_name_passes_unchanged(name: Seq<char>)
    requires
        forall|i: int| 0 <= i < name.len() ==> !is_control(#[trigger] name[i]),
    ensures
        spec_sanitize_inline(name) == name,
{
    crate::text::lemma_filter_keeps_all(name, |c: char| !is_control(c));
}

} // verus!