//! The shared list-cursor engine: visible-index filtering, cursor
//! clamping and keep-visible scroll math for every scrollable list.
use crate::text::{contains, has_sub, lower_chars, lowercase};
use vstd::prelude::*;

verus! {

#[derive(Debug)]
pub struct ListCursor {
    /// Index into the visible (filtered) rows.
    pub cursor: usize,
    /// First visible display row (scroll offset, in rows).
    pub scroll: u16,
}

impl Default for ListCursor {
    fn default() -> (r: Self)
        ensures
            r.cursor == 0,
            r.scroll == 0,
    {
        ListCursor { cursor: 0, scroll: 0 }
    }
}

/// The cursor after a move of `delta` rows over `visible_len` rows.
pub open spec fn moved(cursor: int, visible_len: int, delta: int) -> int {
    if visible_len == 0 {
        0
    } else if cursor + delta < 0 {
        0
    } else if cursor + delta > visible_len - 1 {
        visible_len - 1
    } else {
        cursor + delta
    }
}

/// The keep-visible offset: the smallest scroll that still shows the
/// cursor row in a viewport of `height` rows, never past the last
/// full page.
pub open spec fn keep_visible_scroll(cursor: int, height: int, total: int) -> int {
    let h = if height < 1 { 1 } else { height };
    let max_scroll = if total > h { total - h } else { 0 };
    let low = if cursor > h - 1 { cursor - (h - 1) } else { 0 };
    if low < max_scroll { low } else { max_scroll }
}

impl ListCursor {
    pub fn new() -> (r: Self)
        ensures
            r.cursor == 0,
            r.scroll == 0,
    {
        Self::default()
    }

    /// Keep the cursor inside `0..visible_len` (empty lists park at 0).
    pub fn clamp(&mut self, visible_len: usize)
        ensures
            final(self).scroll == old(self).scroll,
            final(self).cursor == (if visible_len == 0 {
                0
            } else if old(self).cursor < visible_len {
                old(self).cursor as int
            } else {
                visible_len - 1
            }),
    {
        let last = if visible_len > 0 { visible_len - 1 } else { 0 };
        self.cursor = if self.cursor < last { self.cursor } else { last };
    }

    /// Move by `delta` rows, clamped; empty lists stay parked.
    pub fn move_by(&mut self, visible_len: usize, delta: isize)
        requires
            visible_len <= isize::MAX,
            old(self).cursor <= isize::MAX,
            isize::MIN <= old(self).cursor + delta <= isize::MAX,
        ensures
            final(self).scroll == old(self).scroll,
            final(self).cursor == moved(old(self).cursor as int, visible_len as int, delta as int),
    {
        if visible_len == 0 {
            self.cursor = 0;
            return;
        }
        let cur = self.cursor as isize;
        let last = (visible_len - 1) as isize;
        let sum = cur + delta;
        let next: isize = if sum < 0 {
            0
        } else if sum > last {
            last
        } else {
            sum
        };
        self.cursor = next as usize;
    }

    /// The keep-visible scroll: the cursor row sits inside the
    /// viewport, the offset moving minimally. `height` is viewport
    /// rows, `total` the full row count.
    pub fn keep_visible(&mut self, height: usize, total: usize)
        ensures
            final(self).cursor == old(self).cursor,
            final(self).scroll == keep_visible_scroll(
                old(self).cursor as int,
                height as int,
                total as int,
            ) as u16,
    {
        let h = if height < 1 { 1 } else { height };
        let max_scroll = if total > h { total - h } else { 0 };
        let low = if self.cursor > h - 1 { self.cursor - (h - 1) } else { 0 };
        let s = if low < max_scroll { low } else { max_scroll };
        self.scroll = s as u16;
    }
}

/// Does `text` survive a filter whose lowercased needle is `needle`?
pub open spec fn survives(text: Seq<char>, needle: Seq<char>) -> bool {
    needle.len() == 0 || has_sub(lowercase(text), needle)
}

/// Indices (ascending) of the texts that survive the filter.
pub open spec fn matching_indices(texts: Seq<Seq<char>>, needle: Seq<char>) -> Seq<usize>
    decreases texts.len(),
{
    if texts.len() == 0 {
        seq![]
    } else {
        let r = matching_indices(texts.drop_last(), needle);
        if survives(texts.last(), needle) {
            r.push((texts.len() - 1) as usize)
        } else {
            r
        }
    }
}

/// The case-insensitive substring filter every `/` session uses:
/// `needle` must already be lowercased.
pub fn text_survives(text: &str, needle: &[char]) -> (b: bool)
    ensures
        b == survives(text@, needle@),
{
    if needle.len() == 0 {
        return true;
    }
    let lower = lower_chars(text);
    contains(lower.as_slice(), needle)
}

/// Filtered indices: positions in `items` whose `text_of` matches the
/// lowercased needle. Empty needle = everything visible.
pub fn visible_indices<T, F: Fn(&T) -> String>(items: &[T], needle: &str, text_of: F) -> (r: Vec<
    usize,
>)
    requires
        forall|i: int| 0 <= i < items@.len() ==> call_requires(text_of, (&items@[i],)),
    ensures
        exists|texts: Seq<String>|
            {
                &&& texts.len() == items@.len()
                &&& forall|i: int|
                    0 <= i < items@.len() ==> call_ensures(text_of, (&items@[i],), #[trigger] texts[i])
                &&& r@ == matching_indices(texts.map_values(|s: String| s@), lowercase(needle@))
            },
{
    let lower = lower_chars(needle);
    let mut r: Vec<usize> = Vec::new();
    let ghost mut texts: Seq<String> = seq![];
    let mut i: usize = 0;
    while i < items.len()
        invariant
            i <= items@.len(),
            lower@ == lowercase(needle@),
            texts.len() == i,
            forall|i: int| 0 <= i < items@.len() ==> call_requires(text_of, (&items@[i],)),
            forall|k: int| 0 <= k < i ==> call_ensures(text_of, (&items@[k],), #[trigger] texts[k]),
            r@ == matching_indices(texts.map_values(|s: String| s@), lower@),
        decreases items.len() - i,
    {
        let t = text_of(&items[i]);
        let keep = text_survives(t.as_str(), lower.as_slice());
        proof {
            let old_texts = texts;
            texts = texts.push(t);
            assert(texts.map_values(|s: String| s@).drop_last() =~= old_texts.map_values(
                |s: String| s@,
            ));
        }
        if keep {
            r.push(i);
        }
        i += 1;
    }
    r
}

} // verus!
