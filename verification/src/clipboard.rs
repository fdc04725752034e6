//! Clipboard history: previews, the rule against recording the same text
//! twice in a row, and the size of a history page.
use vstd::prelude::*;
use crate::text::{chars_of, lit, string_from_chars, utf8_len, utf8_len_seq, utf8_len_spec, slice_vec};

verus! {

broadcast use vstd::string::group_string_axioms;

/// A recorded clipboard text.
pub struct ClipboardEntry {
    pub id: i64,
    pub content: String,
    pub preview: String,
    pub copied_at: i64,
}

impl ClipboardEntry {
    /// A field-by-field copy.
    pub fn duplicate(&self) -> (r: ClipboardEntry)
        ensures
            r == *self,
    {
        ClipboardEntry { id: self.id, content: self.content.clone(), preview: self.preview.clone(), copied_at: self.copied_at }
    }
}

/// The preview of a text: the text itself up to 80 bytes of UTF-8; beyond
/// that its first 77 characters followed by `...`.
pub open spec fn preview_spec(text: Seq<char>) -> Seq<char> {
    if utf8_len_seq(text) > 80 {
        (if text.len() <= 77 {
            text
        } else {
            text.take(77)
        }) + "..."@
    } else {
        text
    }
}

/// Whether the UTF-8 encoding of `v` is longer than `limit` bytes.
fn utf8_longer_than(v: &Vec<char>, limit: usize) -> (r: bool)
    ensures
        r == (utf8_len_seq(v@) > limit),
{
    let mut total: usize = 0;
    let mut i: usize = 0;
    assert(v@.take(0) =~= Seq::<char>::empty());
    while i < v.len()
        invariant
            i <= v@.len(),
            total == utf8_len_seq(v@.take(i as int)),
            total <= limit,
        decreases v@.len() - i,
    {
        assert(v@.take(i + 1).drop_last() =~= v@.take(i as int));
        assert(v@.take(i + 1).last() == v@[i as int]);
        let n = utf8_len(v[i]);
        if n > limit - total {
            proof {
                lemma_utf8_len_prefix(v@, i + 1);
            }
            return true;
        }
        total = total + n;
        i = i + 1;
    }
    assert(v@.take(v@.len() as int) =~= v@);
    false
}

/// The UTF-8 length of a prefix is at most that of the whole.
proof fn lemma_utf8_len_prefix(s: Seq<char>, k: int)
    requires
        0 <= k <= s.len(),
    ensures
        utf8_len_seq(s.take(k)) <= utf8_len_seq(s),
    decreases s.len() - k,
{
    if k < s.len() {
        lemma_utf8_len_prefix(s, k + 1);
        assert(s.take(k + 1).drop_last() =~= s.take(k));
    } else {
        assert(s.take(k) =~= s);
    }
}

/// The preview shown for a copied text.
pub fn clipboard_preview(text: &str) -> (r: String)
    ensures
        r@ == preview_spec(text@),
{
    let v = chars_of(text);
    if utf8_longer_than(&v, 80) {
        let n = if v.len() <= 77 {
            v.len()
        } else {
            77
        };
        let mut head = slice_vec(&v, 0, n);
        assert(head@ =~= (if v@.len() <= 77 { v@ } else { v@.take(77) }));
        let ghost h = head@;
        head.push('.');
        head.push('.');
        head.push('.');
        proof {
            reveal_strlit("...");
            assert(head@ =~= h + "..."@);
        }
        string_from_chars(head.as_slice())
    } else {
        lit(text)
    }
}

/// A copy is recorded unless it repeats the most recent entry.
pub fn should_record(last_content: Option<&str>, text: &str) -> (r: bool)
    ensures
        r == match last_content {
            Some(l) => l@ != text@,
            None => true,
        },
{
    match last_content {
        Some(l) => !crate::text::str_eq(l, text),
        None => true,
    }
}

/// A history as (id, content, preview, time of copy) for each entry.
pub open spec fn history_view(h: Seq<ClipboardEntry>) -> Seq<(i64, Seq<char>, Seq<char>, i64)> {
    Seq::new(h.len(), |i: int| (h[i].id, h[i].content@, h[i].preview@, h[i].copied_at))
}

/// The history after a copy of `text` at `now` (newest last): a new entry
/// with id `id`, unless the newest entry already holds that text.
pub open spec fn recorded(history: Seq<ClipboardEntry>, text: Seq<char>, id: i64, now: i64) -> Seq<
    (i64, Seq<char>, Seq<char>, i64),
> {
    if history.len() > 0 && history.last().content@ == text {
        history_view(history)
    } else {
        history_view(history).push((id, text, preview_spec(text), now))
    }
}

/// Records a copy in the history (newest last).
pub fn record_copy(history: &mut Vec<ClipboardEntry>, text: &str, id: i64, now: i64)
    ensures
        history_view(final(history)@) == recorded(old(history)@, text@, id, now),
        final(history)@.len() > 0 && final(history)@.last().content@ == text@,
        !(old(history)@.len() > 0 && old(history)@.last().content@ == text@)
            ==> final(history)@.last().id == id && final(history)@.last().copied_at == now,
{
    let n = history.len();
    let last: Option<&str> = if n > 0 {
        Some(history[n - 1].content.as_str())
    } else {
        None
    };
    if should_record(last, text) {
        let entry = ClipboardEntry { id, content: lit(text), preview: clipboard_preview(text), copied_at: now };
        let ghost before = history@;
        history.push(entry);
        assert(history_view(history@) =~= history_view(before).push((id, text@, preview_spec(text@), now)));
    } else {
        assert(history_view(history@) =~= history_view(history@));
    }
}

/// Copying the same text twice in a row records it once.
pub proof fn lemma_repeat_copy_recorded_once(history: Seq<ClipboardEntry>, once: Seq<ClipboardEntry>, text: Seq<char>, id1: i64, id2: i64, t1: i64, t2: i64)
    requires
        history_view(once) == recorded(history, text, id1, t1),
        once.len() > 0 && once.last().content@ == text,
    ensures
        recorded(once, text, id2, t2) == history_view(once),
{
    assert(recorded(once, text, id2, t2) =~= history_view(once));
}

/// How many entries a history page shows: the requested number (30 when
/// none is given), at most 100.
pub fn history_limit(limit: Option<i64>) -> (r: i64)
    ensures
        r == match limit {
            Some(l) => if l < 100 {
                l
            } else {
                100
            },
            None => 30,
        },
{
    let l = match limit {
        Some(l) => l,
        None => 30,
    };
    if l < 100 {
        l
    } else {
        100
    }
}

} // verus!
