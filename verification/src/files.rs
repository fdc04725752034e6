//! Desktop file grouping: categories by extension, relation keys from file
//! names, the grouping plan for old files, and the grouping policy.
use vstd::prelude::*;
use crate::text::{
    chars_of, concat2, concat3, is_alnum_spec, is_ascii_alnum, is_whitespace_spec, lit,
    lowercase_of, str_eq, string_from_chars, to_lowercase, trim, trim_chars, trim_char_both,
    trim_end_char_spec, trim_spec, trim_start_char_spec, trim_start_spec, trim_end_spec,
    utf8_len, utf8_len_seq, utf8_len_spec, starts_with, starts_with_spec, signed_decimal,
    signed_decimal_spec,
};

verus! {

broadcast use vstd::string::group_string_axioms;

// ─── Types ───────────────────────────────────────────────────────────────────

/// A file in the access history.
pub struct FileHistoryEntry {
    pub id: i64,
    pub path: String,
    pub name: String,
    pub last_accessed: i64,
    pub access_count: i64,
}

/// The most recent and the most used files.
pub struct RecentAndFrequentFiles {
    pub recent: Vec<FileHistoryEntry>,
    pub frequent: Vec<FileHistoryEntry>,
}

/// Where grouped files go and how old a file must be to be grouped.
pub struct FileGroupingPolicy {
    pub root_folder_name: String,
    pub older_than_days: i64,
    pub updated_at: i64,
}

/// A partial update of the grouping policy.
pub struct FileGroupingPolicyInput {
    pub root_folder_name: Option<String>,
    pub older_than_days: Option<i64>,
}

/// A file to move and the folder it goes to.
pub struct FileGroupingCandidate {
    pub file_name: String,
    pub from_path: String,
    pub target_folder: String,
    pub reason: String,
}

/// The files a grouping run would move.
pub struct FileGroupingPreview {
    pub policy: FileGroupingPolicy,
    pub candidate_count: i64,
    pub candidates: Vec<FileGroupingCandidate>,
}

/// What a grouping run did.
pub struct FileGroupingResult {
    pub policy: FileGroupingPolicy,
    pub total_candidates: i64,
    pub moved_count: i64,
    pub skipped_count: i64,
    pub created_folders: Vec<String>,
    pub errors: Vec<String>,
}

/// A regular file found on the desktop: its path, its name and its
/// modification time (seconds since the epoch).
pub struct DesktopEntry {
    pub path: String,
    pub file_name: String,
    pub modified_ts: i64,
}

// ─── Categories ──────────────────────────────────────────────────────────────

pub open spec fn in_list(e: Seq<char>, l: Seq<Seq<char>>) -> bool {
    exists|i: int| 0 <= i < l.len() && l[i] == e
}

pub open spec fn image_exts() -> Seq<Seq<char>> {
    seq!["png"@, "jpg"@, "jpeg"@, "gif"@, "webp"@, "svg"@, "bmp"@, "ico"@]
}

pub open spec fn audio_exts() -> Seq<Seq<char>> {
    seq!["mp3"@, "wav"@, "m4a"@, "flac"@]
}

pub open spec fn video_exts() -> Seq<Seq<char>> {
    seq!["mp4"@, "mov"@, "mkv"@, "avi"@, "webm"@]
}

pub open spec fn archive_exts() -> Seq<Seq<char>> {
    seq!["zip"@, "rar"@, "7z"@, "tar"@, "gz"@]
}

pub open spec fn document_exts() -> Seq<Seq<char>> {
    seq!["pdf"@, "doc"@, "docx"@, "ppt"@, "pptx"@, "xls"@, "xlsx"@, "txt"@, "md"@]
}

pub open spec fn code_exts() -> Seq<Seq<char>> {
    seq!["ts"@, "js"@, "jsx"@, "tsx"@, "rs"@, "py"@, "java"@, "c"@, "cpp"@, "go"@, "cs"@]
}

pub open spec fn data_exts() -> Seq<Seq<char>> {
    seq!["csv"@, "json"@, "yaml"@, "yml"@, "xml"@]
}

/// The folder category of a (lowercase) extension.
pub open spec fn category_spec(e: Seq<char>) -> Seq<char> {
    if in_list(e, image_exts()) {
        "Images"@
    } else if in_list(e, audio_exts()) {
        "Audio"@
    } else if in_list(e, video_exts()) {
        "Video"@
    } else if in_list(e, archive_exts()) {
        "Archives"@
    } else if in_list(e, document_exts()) {
        "Documents"@
    } else if in_list(e, code_exts()) {
        "Code"@
    } else if in_list(e, data_exts()) {
        "Data"@
    } else {
        "Other"@
    }
}

fn one_of(e: &str, l: &[&str]) -> (r: bool)
    ensures
        r == exists|i: int| 0 <= i < l@.len() && l@[i]@ == e@,
{
    let mut i: usize = 0;
    while i < l.len()
        invariant
            i <= l@.len(),
            forall|k: int| 0 <= k < i ==> l@[k]@ != e@,
        decreases l@.len() - i,
    {
        if str_eq(l[i], e) {
            return true;
        }
        i = i + 1;
    }
    false
}

proof fn lemma_list_view(l: Seq<&str>, s: Seq<Seq<char>>, e: Seq<char>)
    requires
        l.len() == s.len(),
        forall|i: int| 0 <= i < l.len() ==> l[i]@ == s[i],
    ensures
        (exists|i: int| 0 <= i < l.len() && l[i]@ == e) == in_list(e, s),
{
    if exists|i: int| 0 <= i < l.len() && l[i]@ == e {
        let i = choose|i: int| 0 <= i < l.len() && l[i]@ == e;
        assert(s[i] == e);
    }
}

/// The folder category of a file extension.
pub fn category_for_extension(ext: &str) -> (r: &'static str)
    ensures
        r@ == category_spec(ext@),
{
    let images: [&str; 8] = ["png", "jpg", "jpeg", "gif", "webp", "svg", "bmp", "ico"];
    let audio: [&str; 4] = ["mp3", "wav", "m4a", "flac"];
    let video: [&str; 5] = ["mp4", "mov", "mkv", "avi", "webm"];
    let archives: [&str; 5] = ["zip", "rar", "7z", "tar", "gz"];
    let documents: [&str; 9] = ["pdf", "doc", "docx", "ppt", "pptx", "xls", "xlsx", "txt", "md"];
    let code: [&str; 11] = ["ts", "js", "jsx", "tsx", "rs", "py", "java", "c", "cpp", "go", "cs"];
    let data: [&str; 5] = ["csv", "json", "yaml", "yml", "xml"];
    proof {
        lemma_list_view(images@, image_exts(), ext@);
        lemma_list_view(audio@, audio_exts(), ext@);
        lemma_list_view(video@, video_exts(), ext@);
        lemma_list_view(archives@, archive_exts(), ext@);
        lemma_list_view(documents@, document_exts(), ext@);
        lemma_list_view(code@, code_exts(), ext@);
        lemma_list_view(data@, data_exts(), ext@);
    }
    if one_of(ext, &images) {
        "Images"
    } else if one_of(ext, &audio) {
        "Audio"
    } else if one_of(ext, &video) {
        "Video"
    } else if one_of(ext, &archives) {
        "Archives"
    } else if one_of(ext, &documents) {
        "Documents"
    } else if one_of(ext, &code) {
        "Code"
    } else if one_of(ext, &data) {
        "Data"
    } else {
        "Other"
    }
}

// ─── Folder-name segments ────────────────────────────────────────────────────

/// Characters kept in a folder-name segment; every other one becomes `_`.
pub open spec fn seg_char(c: char) -> bool {
    is_alnum_spec(c) || c == '-' || c == '_'
}

pub open spec fn seg_map(s: Seq<char>) -> Seq<char> {
    Seq::new(s.len(), |i: int| if seg_char(s[i]) { s[i] } else { '_' })
}

/// A safe folder-name segment: unsafe characters become `_`, surrounding
/// `_` and whitespace are removed, and an empty result becomes `misc`.
pub open spec fn normalize_spec(raw: Seq<char>) -> Seq<char> {
    let t = trim_spec(trim_end_char_spec(trim_start_char_spec(seg_map(raw), '_'), '_'));
    if t.len() == 0 {
        "misc"@
    } else {
        t
    }
}

/// Makes a text safe as a folder-name segment.
pub fn normalize_segment(raw: &str) -> (r: String)
    ensures
        r@ == normalize_spec(raw@),
{
    let v = chars_of(raw);
    let mut mapped: Vec<char> = Vec::new();
    let mut i: usize = 0;
    while i < v.len()
        invariant
            i <= v@.len(),
            mapped@ == seg_map(v@).take(i as int),
        decreases v@.len() - i,
    {
        let c = v[i];
        if is_ascii_alnum(c) || c == '-' || c == '_' {
            mapped.push(c);
        } else {
            mapped.push('_');
        }
        assert(mapped@ =~= seg_map(v@).take(i + 1));
        i = i + 1;
    }
    assert(seg_map(v@).take(v@.len() as int) =~= seg_map(v@));
    let stripped = trim_char_both(&mapped, '_');
    let t = trim_chars(&stripped);
    if t.len() == 0 {
        lit("misc")
    } else {
        string_from_chars(t.as_slice())
    }
}

/// The shape of a normalized segment: safe characters only, no `_` at
/// either end, and not empty.
pub open spec fn segment_shaped(s: Seq<char>) -> bool {
    &&& s.len() > 0
    &&& forall|i: int| 0 <= i < s.len() ==> seg_char(s[i])
    &&& s[0] != '_'
    &&& s.last() != '_'
}

proof fn lemma_trim_start_char_shape(s: Seq<char>, c: char)
    ensures
        trim_start_char_spec(s, c).len() > 0 ==> trim_start_char_spec(s, c)[0] != c,
        exists|k: int| 0 <= k <= s.len() && trim_start_char_spec(s, c) == s.skip(k),
    decreases s.len(),
{
    if s.len() > 0 && s[0] == c {
        lemma_trim_start_char_shape(s.skip(1), c);
        let k = choose|k: int| 0 <= k <= s.skip(1).len() && trim_start_char_spec(s.skip(1), c) == s.skip(1).skip(k);
        assert(s.skip(1).skip(k) =~= s.skip(k + 1));
    } else {
        assert(s.skip(0) =~= s);
    }
}

proof fn lemma_trim_end_char_shape(s: Seq<char>, c: char)
    ensures
        trim_end_char_spec(s, c).len() > 0 ==> trim_end_char_spec(s, c).last() != c,
        exists|k: int| 0 <= k <= s.len() && trim_end_char_spec(s, c) == s.take(k),
    decreases s.len(),
{
    if s.len() > 0 && s.last() == c {
        lemma_trim_end_char_shape(s.drop_last(), c);
        let k = choose|k: int| 0 <= k <= s.drop_last().len() && trim_end_char_spec(s.drop_last(), c) == s.drop_last().take(k);
        assert(s.drop_last().take(k) =~= s.take(k));
    } else {
        assert(s.take(s.len() as int) =~= s);
    }
}

proof fn lemma_trim_noop(s: Seq<char>)
    requires
        forall|i: int| 0 <= i < s.len() ==> !is_whitespace_spec(s[i]),
    ensures
        trim_spec(s) == s,
{
    assert(trim_start_spec(s) == s);
    assert(trim_end_spec(s) == s);
}

proof fn lemma_seg_chars_not_ws(c: char)
    requires
        seg_char(c),
    ensures
        !is_whitespace_spec(c),
{
}

/// Every normalized segment has the segment shape.
proof fn lemma_normalize_shape(raw: Seq<char>)
    ensures
        segment_shaped(normalize_spec(raw)),
{
    let m = seg_map(raw);
    assert forall|i: int| 0 <= i < m.len() implies seg_char(m[i]) by {}
    lemma_trim_start_char_shape(m, '_');
    let a = trim_start_char_spec(m, '_');
    let k1 = choose|k: int| 0 <= k <= m.len() && a == m.skip(k);
    assert forall|i: int| 0 <= i < a.len() implies seg_char(a[i]) by {
        assert(a[i] == m[i + k1]);
    }
    lemma_trim_end_char_shape(a, '_');
    let b = trim_end_char_spec(a, '_');
    let k2 = choose|k: int| 0 <= k <= a.len() && b == a.take(k);
    assert forall|i: int| 0 <= i < b.len() implies seg_char(b[i]) && !is_whitespace_spec(b[i]) by {
        assert(b[i] == a[i]);
    }
    if b.len() > 0 {
        assert(b[0] == a[0]);
    }
    lemma_trim_noop(b);
    reveal_strlit("misc");
}

proof fn lemma_seg_map_identity(s: Seq<char>)
    requires
        forall|i: int| 0 <= i < s.len() ==> seg_char(s[i]),
    ensures
        seg_map(s) == s,
{
    assert(seg_map(s) =~= s);
}

/// Normalizing a normalized segment changes nothing.
pub proof fn lemma_normalize_segment_idempotent(raw: Seq<char>)
    ensures
        normalize_spec(normalize_spec(raw)) == normalize_spec(raw),
{
    let n = normalize_spec(raw);
    lemma_normalize_shape(raw);
    lemma_seg_map_identity(n);
    assert(trim_start_char_spec(n, '_') == n);
    assert(trim_end_char_spec(n, '_') == n);
    assert forall|i: int| 0 <= i < n.len() implies !is_whitespace_spec(n[i]) by {
        lemma_seg_chars_not_ws(n[i]);
    }
    lemma_trim_noop(n);
}

// ─── Relation keys ───────────────────────────────────────────────────────────

/// What `Path::file_stem` gives for a text taken as a path (as UTF-8 text),
/// by the path syntax of the target the crate is built for.
pub uninterp spec fn file_stem_of(name: Seq<char>) -> Option<Seq<char>>;

/// What `Path::extension` gives for a text taken as a path (as UTF-8 text),
/// by the path syntax of the target the crate is built for.
pub uninterp spec fn file_extension_of(name: Seq<char>) -> Option<Seq<char>>;

/// Calls `Path::new(name).file_stem()` and converts it back to text.
/// Trusted: the result is the named stem.
#[verifier::external_body]
pub(crate) fn file_stem(name: &str) -> (r: Option<String>)
    ensures
        opt_view_s(r) == file_stem_of(name@),
{
    std::path::Path::new(name).file_stem().and_then(|s| s.to_str()).map(|s| s.to_string())
}

/// Calls `Path::new(name).extension()` and converts it back to text.
/// Trusted: the result is the named extension.
#[verifier::external_body]
pub(crate) fn file_extension(name: &str) -> (r: Option<String>)
    ensures
        opt_view_s(r) == file_extension_of(name@),
{
    std::path::Path::new(name).extension().and_then(|s| s.to_str()).map(|s| s.to_string())
}

pub open spec fn opt_view_s(o: Option<String>) -> Option<Seq<char>> {
    crate::text::opt_view(o)
}

/// Separators of the words of a file stem.
pub open spec fn is_key_sep(c: char) -> bool {
    c == '_' || c == '-' || c == ' ' || c == '.'
}

/// `str::split` on the key separators: the pieces between them.
pub open spec fn split_key_parts(s: Seq<char>) -> Seq<Seq<char>>
    decreases s.len(),
{
    if s.len() == 0 {
        seq![Seq::<char>::empty()]
    } else {
        let ps = split_key_parts(s.drop_last());
        if is_key_sep(s.last()) {
            ps.push(Seq::<char>::empty())
        } else {
            ps.update(ps.len() - 1, ps.last().push(s.last()))
        }
    }
}

/// The first piece whose UTF-8 encoding has four bytes or more.
pub open spec fn first_long_part(parts: Seq<Seq<char>>) -> Option<Seq<char>>
    decreases parts.len(),
{
    if parts.len() == 0 {
        None
    } else if utf8_len_seq(parts[0]) >= 4 {
        Some(parts[0])
    } else {
        first_long_part(parts.skip(1))
    }
}

/// The relation key of a file name: the first word of its lowercase stem
/// that is four bytes or longer, as a folder-name segment.
pub open spec fn relation_key_spec(file_name: Seq<char>) -> Option<Seq<char>> {
    let stem = match file_stem_of(file_name) {
        Some(s) => s,
        None => Seq::<char>::empty(),
    };
    match first_long_part(split_key_parts(lowercase_of(stem))) {
        Some(p) => Some(normalize_spec(p)),
        None => None,
    }
}

proof fn lemma_split_key_nonempty(s: Seq<char>)
    ensures
        split_key_parts(s).len() >= 1,
    decreases s.len(),
{
    if s.len() > 0 {
        lemma_split_key_nonempty(s.drop_last());
    }
}

/// `first_long_part` of pieces followed by more pieces.
proof fn lemma_first_long_append(a: Seq<Seq<char>>, b: Seq<Seq<char>>)
    ensures
        first_long_part(a + b) == (if first_long_part(a) is Some {
            first_long_part(a)
        } else {
            first_long_part(b)
        }),
    decreases a.len(),
{
    if a.len() > 0 {
        assert((a + b).skip(1) =~= a.skip(1) + b);
        assert((a + b)[0] == a[0]);
        lemma_first_long_append(a.skip(1), b);
    } else {
        assert(a + b =~= b);
    }
}

proof fn lemma_first_long_single(p: Seq<char>)
    ensures
        first_long_part(seq![p]) == (if utf8_len_seq(p) >= 4 {
            Some(p)
        } else {
            None::<Seq<char>>
        }),
{
    reveal_with_fuel(first_long_part, 2);
    assert(seq![p][0] == p);
    assert(seq![p].skip(1) =~= Seq::<Seq<char>>::empty());
}

/// The relation key of a file name: the first word (split at `_`, `-`,
/// space and `.`) of the lowercase file stem that is four bytes or longer,
/// made safe as a folder name; `None` when there is no such word.
pub fn relation_key(file_name: &str) -> (r: Option<String>)
    ensures
        opt_view_s(r) == relation_key_spec(file_name@),
{
    let stem = match file_stem(file_name) {
        Some(s) => s,
        None => String::new(),
    };
    let lower = to_lowercase(stem.as_str());
    let v = chars_of(lower.as_str());
    let mut cur: Vec<char> = Vec::new();
    let mut cur_bytes: usize = 0;
    let mut found: Option<Vec<char>> = None;
    let mut i: usize = 0;
    assert(v@.take(0) =~= Seq::<char>::empty());
    assert(split_key_parts(Seq::<char>::empty()).drop_last() =~= Seq::<Seq<char>>::empty());
    while i < v.len()
        invariant
            i <= v@.len(),
            split_key_parts(v@.take(i as int)).len() >= 1,
            split_key_parts(v@.take(i as int)).last() == cur@,
            cur_bytes == (if utf8_len_seq(cur@) >= 4 {
                4
            } else {
                utf8_len_seq(cur@)
            }),
            first_long_part(split_key_parts(v@.take(i as int)).drop_last()) == match found {
                Some(f) => Some(f@),
                None => None::<Seq<char>>,
            },
        decreases v@.len() - i,
    {
        let c = v[i];
        let ghost pre = v@.take(i as int);
        let ghost ps = split_key_parts(pre);
        proof {
            assert(v@.take(i + 1).drop_last() =~= pre);
            assert(v@.take(i + 1).last() == c);
        }
        if c == '_' || c == '-' || c == ' ' || c == '.' {
            proof {
                let ps2 = split_key_parts(v@.take(i + 1));
                assert(ps2 == ps.push(Seq::<char>::empty()));
                assert(ps2.drop_last() =~= ps);
                assert(ps.drop_last() + seq![ps.last()] =~= ps);
                lemma_first_long_single(cur@);
                lemma_first_long_append(ps.drop_last(), seq![ps.last()]);
            }
            if found.is_none() && cur_bytes >= 4 {
                found = Some(cur);
            }
            cur = Vec::new();
            cur_bytes = 0;
        } else {
            cur.push(c);
            let add = utf8_len(c);
            cur_bytes = if cur_bytes + add >= 4 {
                4
            } else {
                cur_bytes + add
            };
            proof {
                let ps2 = split_key_parts(v@.take(i + 1));
                assert(ps2 == ps.update(ps.len() - 1, ps.last().push(c)));
                assert(ps2.drop_last() =~= ps.drop_last());
                assert(cur@.drop_last() =~= ps.last());
            }
        }
        i = i + 1;
    }
    proof {
        assert(v@.take(v@.len() as int) =~= v@);
        let ps = split_key_parts(v@);
        assert(ps.drop_last() + seq![ps.last()] =~= ps);
        lemma_first_long_single(cur@);
        lemma_first_long_append(ps.drop_last(), seq![ps.last()]);
    }
    let chosen = match found {
        Some(f) => Some(f),
        None => if cur_bytes >= 4 {
            Some(cur)
        } else {
            None
        },
    };
    match chosen {
        Some(part) => {
            let key = string_from_chars(part.as_slice());
            Some(normalize_segment(key.as_str()))
        },
        None => None,
    }
}

// ─── Grouping plan ───────────────────────────────────────────────────────────

/// An integer clamped to the range of `i64` (saturating arithmetic).
pub open spec fn sat_i64(x: int) -> int {
    if x > i64::MAX {
        i64::MAX as int
    } else if x < i64::MIN {
        i64::MIN as int
    } else {
        x
    }
}

/// The latest modification time of a file old enough to be grouped:
/// `now - days * 86400`, each step saturating.
pub open spec fn cutoff_spec(now: i64, days: i64) -> int {
    sat_i64(now - sat_i64(days * 86400))
}

pub fn grouping_cutoff(now: i64, days: i64) -> (r: i64)
    ensures
        r == cutoff_spec(now, days),
{
    let prod: i128 = days as i128 * 86400i128;
    let secs: i64 = if prod > i64::MAX as i128 {
        i64::MAX
    } else if prod < i64::MIN as i128 {
        i64::MIN
    } else {
        prod as i64
    };
    let diff: i128 = now as i128 - secs as i128;
    if diff > i64::MAX as i128 {
        i64::MAX
    } else if diff < i64::MIN as i128 {
        i64::MIN
    } else {
        diff as i64
    }
}

/// Whether a desktop file is grouped: not hidden, and not modified after the cutoff.
pub open spec fn kept_entry(e: DesktopEntry, cutoff: int) -> bool {
    !starts_with_spec(e.file_name@, "."@) && e.modified_ts <= cutoff
}

pub open spec fn kept_entries(es: Seq<DesktopEntry>, cutoff: int) -> Seq<DesktopEntry>
    decreases es.len(),
{
    if es.len() == 0 {
        Seq::empty()
    } else if kept_entry(es.last(), cutoff) {
        kept_entries(es.drop_last(), cutoff).push(es.last())
    } else {
        kept_entries(es.drop_last(), cutoff)
    }
}

/// Only desktop files that are not hidden and were not modified after the
/// cutoff are planned for grouping, each at most once, in their order.
pub proof fn lemma_kept_entries(es: Seq<DesktopEntry>, cutoff: int)
    ensures
        kept_entries(es, cutoff).len() <= es.len(),
        forall|i: int|
            0 <= i < kept_entries(es, cutoff).len() ==> kept_entry(#[trigger] kept_entries(es, cutoff)[i], cutoff)
                && es.contains(kept_entries(es, cutoff)[i]),
    decreases es.len(),
{
    if es.len() > 0 {
        let rest = es.drop_last();
        lemma_kept_entries(rest, cutoff);
        let k = kept_entries(es, cutoff);
        assert forall|i: int| 0 <= i < k.len() implies kept_entry(#[trigger] k[i], cutoff) && es.contains(k[i]) by {
            if i < kept_entries(rest, cutoff).len() {
                assert(k[i] == kept_entries(rest, cutoff)[i]);
                assert(rest.contains(k[i]));
                let j = choose|j: int| 0 <= j < rest.len() && rest[j] == k[i];
                assert(es[j] == k[i]);
            } else {
                assert(k[i] == es.last());
                assert(es[es.len() - 1] == k[i]);
            }
        }
    }
}

/// The category of a file by its lowercase extension (none counts as empty).
pub open spec fn entry_category(e: DesktopEntry) -> Seq<char> {
    category_spec(
        lowercase_of(
            match file_extension_of(e.file_name@) {
                Some(x) => x,
                None => Seq::<char>::empty(),
            },
        ),
    )
}

/// Letter case in an extension does not change a file's category: files
/// whose extensions are the same in lower case fall in the same category.
pub proof fn lemma_category_ignores_case(e1: DesktopEntry, e2: DesktopEntry, x1: Seq<char>, x2: Seq<char>)
    requires
        file_extension_of(e1.file_name@) == Some(x1),
        file_extension_of(e2.file_name@) == Some(x2),
        lowercase_of(x1) == lowercase_of(x2),
    ensures
        entry_category(e1) == entry_category(e2),
{
}

/// A file whose extension is, in lower case, an image extension (such as
/// `JPG` or `Png`) is an image; likewise for documents.
pub proof fn lemma_category_by_lowercase(e: DesktopEntry, x: Seq<char>)
    requires
        file_extension_of(e.file_name@) == Some(x),
    ensures
        in_list(lowercase_of(x), image_exts()) ==> entry_category(e) == "Images"@,
        lowercase_of(x) == "jpg"@ ==> entry_category(e) == "Images"@,
        !in_list(lowercase_of(x), image_exts()) && !in_list(lowercase_of(x), audio_exts()) && !in_list(
            lowercase_of(x),
            video_exts(),
        ) && !in_list(lowercase_of(x), archive_exts()) && in_list(lowercase_of(x), document_exts())
            ==> entry_category(e) == "Documents"@,
{
    if lowercase_of(x) == "jpg"@ {
        assert(image_exts()[1] == "jpg"@);
    }
}

/// How many of the files have relation key `k`.
pub open spec fn key_count(es: Seq<DesktopEntry>, k: Seq<char>) -> nat
    decreases es.len(),
{
    if es.len() == 0 {
        0
    } else {
        key_count(es.drop_last(), k) + (if relation_key_spec(es.last().file_name@) == Some(k) {
            1nat
        } else {
            0nat
        })
    }
}

pub type CandidateView = (Seq<char>, Seq<char>, Seq<char>, Seq<char>);

/// Where a file goes: files that share a relation key with another grouped
/// file go to `Related/<key>`; the others to `ByType/<category>`.
pub open spec fn candidate_spec(e: DesktopEntry, kept: Seq<DesktopEntry>) -> CandidateView {
    let cat = entry_category(e);
    match relation_key_spec(e.file_name@) {
        Some(k) => if key_count(kept, k) >= 2 {
            (
                e.file_name@,
                e.path@,
                "Related/"@ + normalize_spec(k),
                "Related group by shared name key '"@ + k + "'"@,
            )
        } else {
            (e.file_name@, e.path@, "ByType/"@ + normalize_spec(cat), "Type-based grouping for "@ + cat)
        },
        None => (e.file_name@, e.path@, "ByType/"@ + normalize_spec(cat), "Type-based grouping for "@ + cat),
    }
}

pub open spec fn candidates_spec(entries: Seq<DesktopEntry>, cutoff: int) -> Seq<CandidateView> {
    let kept = kept_entries(entries, cutoff);
    Seq::new(kept.len(), |i: int| candidate_spec(kept[i], kept))
}

impl FileGroupingCandidate {
    pub open spec fn view_tuple(&self) -> CandidateView {
        (self.file_name@, self.from_path@, self.target_folder@, self.reason@)
    }
}

pub open spec fn candidates_view(v: Seq<FileGroupingCandidate>) -> Seq<CandidateView> {
    Seq::new(v.len(), |i: int| v[i].view_tuple())
}

impl DesktopEntry {
    pub fn duplicate(&self) -> (r: DesktopEntry)
        ensures
            r == *self,
    {
        DesktopEntry { path: self.path.clone(), file_name: self.file_name.clone(), modified_ts: self.modified_ts }
    }
}

fn entry_category_exec(e: &DesktopEntry) -> (r: &'static str)
    ensures
        r@ == entry_category(*e),
{
    let ext = match file_extension(e.file_name.as_str()) {
        Some(x) => x,
        None => String::new(),
    };
    let lower = to_lowercase(ext.as_str());
    category_for_extension(lower.as_str())
}

/// The grouping plan for the desktop files: files that are not hidden and
/// were last modified `older_than_days` days or more before `now`, each
/// with its target folder and the reason for it, in the order given.
pub fn grouping_candidates(entries: &Vec<DesktopEntry>, policy: &FileGroupingPolicy, now: i64) -> (r: Vec<FileGroupingCandidate>)
    ensures
        candidates_view(r@) == candidates_spec(entries@, cutoff_spec(now, policy.older_than_days)),
{
    let cutoff = grouping_cutoff(now, policy.older_than_days);
    let mut kept: Vec<DesktopEntry> = Vec::new();
    let mut i: usize = 0;
    assert(entries@.take(0) =~= Seq::<DesktopEntry>::empty());
    while i < entries.len()
        invariant
            i <= entries@.len(),
            kept@ == kept_entries(entries@.take(i as int), cutoff as int),
        decreases entries@.len() - i,
    {
        let e = &entries[i];
        proof {
            assert(entries@.take(i + 1).drop_last() =~= entries@.take(i as int));
            assert(entries@.take(i + 1).last() == entries@[i as int]);
        }
        if !starts_with(e.file_name.as_str(), ".") && e.modified_ts <= cutoff {
            kept.push(e.duplicate());
        }
        i = i + 1;
    }
    assert(entries@.take(entries@.len() as int) =~= entries@);
    let mut keys: Vec<Option<String>> = Vec::new();
    let mut k: usize = 0;
    while k < kept.len()
        invariant
            k <= kept@.len(),
            keys@.len() == k,
            forall|j: int| 0 <= j < k ==> opt_view_s(#[trigger] keys@[j]) == relation_key_spec(kept@[j].file_name@),
        decreases kept@.len() - k,
    {
        keys.push(relation_key(kept[k].file_name.as_str()));
        k = k + 1;
    }
    let mut out: Vec<FileGroupingCandidate> = Vec::new();
    let mut m: usize = 0;
    while m < kept.len()
        invariant
            m <= kept@.len(),
            keys@.len() == kept@.len(),
            forall|j: int| 0 <= j < kept@.len() ==> opt_view_s(#[trigger] keys@[j]) == relation_key_spec(kept@[j].file_name@),
            candidates_view(out@) == Seq::new(m as nat, |x: int| candidate_spec(kept@[x], kept@)),
        decreases kept@.len() - m,
    {
        let e = &kept[m];
        let cat = entry_category_exec(e);
        proof {
            assert(opt_view_s(keys@[m as int]) == relation_key_spec(kept@[m as int].file_name@));
        }
        let cand = match &keys[m] {
            Some(key) => {
                if count_key(&keys, key, &kept) >= 2 {
                    let seg = normalize_segment(key.as_str());
                    FileGroupingCandidate {
                        file_name: e.file_name.clone(),
                        from_path: e.path.clone(),
                        target_folder: concat2("Related/", seg.as_str()),
                        reason: concat3("Related group by shared name key '", key.as_str(), "'"),
                    }
                } else {
                    let seg = normalize_segment(cat);
                    FileGroupingCandidate {
                        file_name: e.file_name.clone(),
                        from_path: e.path.clone(),
                        target_folder: concat2("ByType/", seg.as_str()),
                        reason: concat2("Type-based grouping for ", cat),
                    }
                }
            },
            None => {
                let seg = normalize_segment(cat);
                FileGroupingCandidate {
                    file_name: e.file_name.clone(),
                    from_path: e.path.clone(),
                    target_folder: concat2("ByType/", seg.as_str()),
                    reason: concat2("Type-based grouping for ", cat),
                }
            },
        };
        assert(cand.view_tuple() == candidate_spec(kept@[m as int], kept@));
        let ghost prev = out@;
        out.push(cand);
        assert(out@ =~= prev.push(cand));
        assert(candidates_view(out@) =~= candidates_view(prev).push(cand.view_tuple()));
        assert(candidates_view(out@) =~= Seq::new((m + 1) as nat, |x: int| candidate_spec(kept@[x], kept@)));
        m = m + 1;
    }
    out
}

fn count_key(keys: &Vec<Option<String>>, key: &String, kept: &Vec<DesktopEntry>) -> (n: usize)
    requires
        keys@.len() == kept@.len(),
        forall|j: int| 0 <= j < kept@.len() ==> opt_view_s(#[trigger] keys@[j]) == relation_key_spec(kept@[j].file_name@),
    ensures
        n == key_count(kept@, key@),
{
    let mut n: usize = 0;
    let mut i: usize = 0;
    assert(kept@.take(0) =~= Seq::<DesktopEntry>::empty());
    while i < keys.len()
        invariant
            keys@.len() == kept@.len(),
            forall|j: int| 0 <= j < kept@.len() ==> opt_view_s(#[trigger] keys@[j]) == relation_key_spec(kept@[j].file_name@),
            i <= keys@.len(),
            n == key_count(kept@.take(i as int), key@),
            n <= i,
        decreases keys@.len() - i,
    {
        proof {
            assert(kept@.take(i + 1).drop_last() =~= kept@.take(i as int));
            assert(kept@.take(i + 1).last() == kept@[i as int]);
            assert(opt_view_s(keys@[i as int]) == relation_key_spec(kept@[i as int].file_name@));
        }
        match &keys[i] {
            Some(k) => {
                if *k == *key {
                    n = n + 1;
                }
            },
            None => {},
        }
        i = i + 1;
    }
    assert(kept@.take(kept@.len() as int) =~= kept@);
    n
}

/// The policy before the user sets one: group into `AI_AutoGroup` files 90
/// days old or more.
pub fn default_grouping_policy() -> (r: FileGroupingPolicy)
    ensures
        r.root_folder_name@ == "AI_AutoGroup"@,
        r.older_than_days == 90,
        r.updated_at == 0,
{
    FileGroupingPolicy { root_folder_name: lit("AI_AutoGroup"), older_than_days: 90, updated_at: 0 }
}

/// `i64::clamp(x, lo, hi)`.
pub open spec fn clamp_spec(x: int, lo: int, hi: int) -> int {
    if x < lo {
        lo
    } else if x > hi {
        hi
    } else {
        x
    }
}

/// Applies a policy update: a new root folder name is trimmed and made safe
/// as a segment; a new age is clamped to 7..=3650 days; the update time is `now`.
pub fn merge_grouping_policy(current: &FileGroupingPolicy, input: FileGroupingPolicyInput, now: i64) -> (r: FileGroupingPolicy)
    ensures
        r.root_folder_name@ == match input.root_folder_name {
            Some(v) => normalize_spec(trim_spec(v@)),
            None => current.root_folder_name@,
        },
        r.older_than_days == match input.older_than_days {
            Some(d) => clamp_spec(d as int, 7, 3650),
            None => current.older_than_days as int,
        },
        r.updated_at == now,
{
    let root = match &input.root_folder_name {
        Some(v) => {
            let t = trim(v.as_str());
            normalize_segment(t.as_str())
        },
        None => current.root_folder_name.clone(),
    };
    let days = match input.older_than_days {
        Some(d) => if d < 7 {
            7
        } else if d > 3650 {
            3650
        } else {
            d
        },
        None => current.older_than_days,
    };
    FileGroupingPolicy { root_folder_name: root, older_than_days: days, updated_at: now }
}

/// A preview of a grouping run: the policy and its candidates.
pub fn grouping_preview(policy: FileGroupingPolicy, candidates: Vec<FileGroupingCandidate>) -> (r: FileGroupingPreview)
    requires
        candidates@.len() <= i64::MAX,
    ensures
        r.policy == policy,
        r.candidates == candidates,
        r.candidate_count == candidates@.len(),
{
    let n = candidates.len() as i64;
    FileGroupingPreview { policy, candidate_count: n, candidates }
}

/// A free name for a file whose target exists: the stem (`file` when there
/// is none), `_` and the suffix, then the extension when there is one.
pub open spec fn renamed_spec(target: Seq<char>, suffix: i64) -> Seq<char> {
    let stem = match file_stem_of(target) {
        Some(s) => s,
        None => "file"@,
    };
    let ext = match file_extension_of(target) {
        Some(x) => x,
        None => Seq::<char>::empty(),
    };
    if ext.len() == 0 {
        stem + "_"@ + signed_decimal_spec(suffix as int)
    } else {
        stem + "_"@ + signed_decimal_spec(suffix as int) + "."@ + ext
    }
}

/// The replacement name for a target file that already exists.
pub fn conflict_free_name(target: &str, suffix: i64) -> (r: String)
    ensures
        r@ == renamed_spec(target@, suffix),
{
    let stem = match file_stem(target) {
        Some(s) => s,
        None => lit("file"),
    };
    let ext = match file_extension(target) {
        Some(x) => x,
        None => String::new(),
    };
    let num = signed_decimal(suffix);
    let mut out = concat3(stem.as_str(), "_", num.as_str());
    if !ext.as_str().is_empty() {
        out.append(".");
        out.append(ext.as_str());
    }
    out
}

// ─── Sorted, distinct folder lists ───────────────────────────────────────────

/// Lexicographic order of character sequences (the order of `String`,
/// since UTF-8 preserves the order of code points).
pub open spec fn lex_lt(a: Seq<char>, b: Seq<char>) -> bool
    decreases a.len(),
{
    if b.len() == 0 {
        false
    } else if a.len() == 0 {
        true
    } else if a[0] < b[0] {
        true
    } else if a[0] > b[0] {
        false
    } else {
        lex_lt(a.skip(1), b.skip(1))
    }
}

proof fn lemma_lex_trichotomy(a: Seq<char>, b: Seq<char>)
    ensures
        lex_lt(a, b) || lex_lt(b, a) || a == b,
        !(lex_lt(a, b) && lex_lt(b, a)),
    decreases a.len(),
{
    if a.len() > 0 && b.len() > 0 && a[0] == b[0] {
        lemma_lex_trichotomy(a.skip(1), b.skip(1));
        if a.skip(1) == b.skip(1) {
            assert(a =~= seq![a[0]] + a.skip(1));
            assert(b =~= seq![b[0]] + b.skip(1));
        }
    }
    if a.len() == 0 && b.len() == 0 {
        assert(a =~= b);
    }
}

proof fn lemma_lex_transitive(a: Seq<char>, b: Seq<char>, c: Seq<char>)
    requires
        lex_lt(a, b),
        lex_lt(b, c),
    ensures
        lex_lt(a, c),
    decreases a.len(),
{
    if a.len() > 0 && a[0] == b[0] && b[0] == c[0] {
        lemma_lex_transitive(a.skip(1), b.skip(1), c.skip(1));
    }
}

fn lex_less(a: &String, b: &String) -> (r: bool)
    ensures
        r == lex_lt(a@, b@),
{
    let x = chars_of(a.as_str());
    let y = chars_of(b.as_str());
    let mut i: usize = 0;
    assert(x@.skip(0) =~= x@);
    assert(y@.skip(0) =~= y@);
    while i < x.len() && i < y.len() && x[i] == y[i]
        invariant
            i <= x@.len(),
            i <= y@.len(),
            lex_lt(x@, y@) == lex_lt(x@.skip(i as int), y@.skip(i as int)),
        decreases x@.len() - i,
    {
        proof {
            assert(x@.skip(i as int).skip(1) =~= x@.skip(i + 1));
            assert(y@.skip(i as int).skip(1) =~= y@.skip(i + 1));
            assert(x@.skip(i as int)[0] == x@[i as int]);
            assert(y@.skip(i as int)[0] == y@[i as int]);
        }
        i = i + 1;
    }
    if i == y.len() {
        false
    } else if i == x.len() {
        true
    } else {
        assert(x@.skip(i as int)[0] == x@[i as int]);
        assert(y@.skip(i as int)[0] == y@[i as int]);
        x[i] < y[i]
    }
}

proof fn lemma_push_contains(t: Seq<Seq<char>>, v: Seq<char>, x: Seq<char>)
    ensures
        t.push(v).contains(x) <==> t.contains(x) || x == v,
{
    if t.push(v).contains(x) {
        let k = choose|k: int| 0 <= k < t.push(v).len() && t.push(v)[k] == x;
        if k < t.len() {
            assert(t[k] == x);
        }
    }
    if t.contains(x) {
        let k = choose|k: int| 0 <= k < t.len() && t[k] == x;
        assert(t.push(v)[k] == x);
    }
    if x == v {
        assert(t.push(v)[t.len() as int] == x);
    }
}

/// Sorted without repetition.
pub open spec fn strictly_sorted(s: Seq<Seq<char>>) -> bool {
    forall|i: int, j: int| 0 <= i < j < s.len() ==> lex_lt(s[i], s[j])
}

/// The distinct strings of a list in ascending order (`sort` then `dedup`).
pub fn sorted_unique(items: &Vec<String>) -> (r: Vec<String>)
    ensures
        strictly_sorted(strings_view_f(r@)),
        forall|x: Seq<char>| strings_view_f(r@).contains(x) <==> strings_view_f(items@).contains(x),
{
    let mut out: Vec<String> = Vec::new();
    let mut i: usize = 0;
    assert(strings_view_f(items@.take(0)) =~= Seq::<Seq<char>>::empty());
    assert(strings_view_f(out@) =~= Seq::<Seq<char>>::empty());
    while i < items.len()
        invariant
            i <= items@.len(),
            strictly_sorted(strings_view_f(out@)),
            forall|x: Seq<char>| strings_view_f(out@).contains(x) <==> strings_view_f(items@.take(i as int)).contains(x),
        decreases items@.len() - i,
    {
        let s = &items[i];
        let ghost before = strings_view_f(out@);
        let ghost seen = strings_view_f(items@.take(i as int));
        let mut j: usize = 0;
        while j < out.len() && lex_less(&out[j], s)
            invariant
                j <= out@.len(),
                strings_view_f(out@) == before,
                forall|k: int| 0 <= k < j ==> lex_lt(before[k], s@),
            decreases out@.len() - j,
        {
            j = j + 1;
        }
        proof {
            assert(items@.take(i + 1) =~= items@.take(i as int).push(items@[i as int]));
            assert(strings_view_f(items@.take(i + 1)) =~= seen.push(s@));
            assert forall|x: Seq<char>| seen.push(s@).contains(x) <==> seen.contains(x) || x == s@ by {
                lemma_push_contains(seen, s@, x);
            }
        }
        if j < out.len() && out[j] == *s {
            proof {
                assert(before[j as int] == s@);
                assert(before.contains(s@));
            }
        } else {
            proof {
                if j < out@.len() {
                    lemma_lex_trichotomy(before[j as int], s@);
                }
            }
            out.insert(j, s.clone());
            proof {
                let after = strings_view_f(out@);
                assert(after =~= before.insert(j as int, s@));
                assert forall|a: int, b: int| 0 <= a < b < after.len() implies lex_lt(after[a], after[b]) by {
                    if b < j {
                        assert(after[a] == before[a] && after[b] == before[b]);
                    } else if b == j {
                        assert(after[a] == before[a]);
                    } else if a == j {
                        assert(after[b] == before[b - 1]);
                        if b - 1 > j {
                            lemma_lex_transitive(s@, before[j as int], before[b - 1]);
                        }
                    } else if a < j {
                        assert(after[a] == before[a]);
                        assert(after[b] == before[b - 1]);
                    } else {
                        assert(after[a] == before[a - 1]);
                        assert(after[b] == before[b - 1]);
                    }
                }
                assert forall|x: Seq<char>| after.contains(x) <==> before.contains(x) || x == s@ by {
                    if after.contains(x) {
                        let k = choose|k: int| 0 <= k < after.len() && after[k] == x;
                        if k < j {
                            assert(before[k] == x);
                        } else if k > j {
                            assert(before[k - 1] == x);
                        }
                    }
                    if before.contains(x) {
                        let k = choose|k: int| 0 <= k < before.len() && before[k] == x;
                        if k < j {
                            assert(after[k] == x);
                        } else {
                            assert(after[k + 1] == x);
                        }
                    }
                    if x == s@ {
                        assert(after[j as int] == x);
                    }
                }
            }
        }
        i = i + 1;
    }
    assert(items@.take(items@.len() as int) =~= items@);
    out
}

// ─── Running a grouping batch ────────────────────────────────────────────────

/// What happened to one candidate of a grouping run.
pub enum MoveOutcome {
    /// The file is gone: skipped.
    SourceMissing,
    /// Its target folder could not be made: skipped, with the error.
    FolderFailed { error: String },
    /// Moved; the folder made for it, if one was.
    Moved { created_folder: Option<String> },
    /// The move failed: skipped, with the error (the folder made, if one was).
    MoveFailed { created_folder: Option<String>, error: String },
}

/// The folder an outcome made, if it made one.
pub open spec fn outcome_folder(o: MoveOutcome) -> Seq<Seq<char>> {
    match o {
        MoveOutcome::Moved { created_folder: Some(f) } => seq![f@],
        MoveOutcome::MoveFailed { created_folder: Some(f), error: _ } => seq![f@],
        _ => Seq::empty(),
    }
}

/// The error an outcome for the file `name` notes, if any, as `name: error`.
pub open spec fn outcome_error(name: Seq<char>, o: MoveOutcome) -> Seq<Seq<char>> {
    match o {
        MoveOutcome::FolderFailed { error } => seq![name + ": "@ + error@],
        MoveOutcome::MoveFailed { created_folder: _, error } => seq![name + ": "@ + error@],
        _ => Seq::empty(),
    }
}

/// How many of the outcomes are moves.
pub open spec fn run_moved(outs: Seq<MoveOutcome>) -> nat
    decreases outs.len(),
{
    if outs.len() == 0 {
        0
    } else {
        run_moved(outs.drop_last()) + if outs.last() is Moved {
            1nat
        } else {
            0nat
        }
    }
}

/// The folders the outcomes made, in order.
pub open spec fn run_folders(outs: Seq<MoveOutcome>) -> Seq<Seq<char>>
    decreases outs.len(),
{
    if outs.len() == 0 {
        Seq::empty()
    } else {
        run_folders(outs.drop_last()) + outcome_folder(outs.last())
    }
}

/// The errors the outcomes note, in order, each with its file's name.
pub open spec fn run_errors(names: Seq<Seq<char>>, outs: Seq<MoveOutcome>) -> Seq<Seq<char>>
    decreases outs.len(),
{
    if outs.len() == 0 {
        Seq::empty()
    } else {
        run_errors(names, outs.drop_last()) + outcome_error(names[outs.len() - 1], outs.last())
    }
}

/// The running account of a grouping batch.
pub struct GroupingTally {
    pub moved_count: i64,
    pub skipped_count: i64,
    pub created_folders: Vec<String>,
    pub errors: Vec<String>,
}

impl GroupingTally {
    /// A sound account: counts are not negative, and every error belongs to
    /// a skipped candidate.
    pub open spec fn wf(&self) -> bool {
        &&& self.moved_count >= 0
        &&& self.skipped_count >= 0
        &&& self.errors@.len() <= self.skipped_count
    }

    /// The account before the first candidate.
    pub fn new() -> (r: GroupingTally)
        ensures
            r.wf(),
            r.moved_count == 0,
            r.skipped_count == 0,
            r.created_folders@.len() == 0,
            r.errors@.len() == 0,
    {
        GroupingTally { moved_count: 0, skipped_count: 0, created_folders: Vec::new(), errors: Vec::new() }
    }

    /// Records the outcome for the candidate file `file_name`: a move counts
    /// as moved, anything else as skipped; a made folder is noted; an error
    /// is noted as `file_name: error`.
    pub fn record(&mut self, file_name: &str, outcome: &MoveOutcome)
        requires
            old(self).wf(),
            old(self).moved_count + old(self).skipped_count < i64::MAX,
        ensures
            final(self).wf(),
            final(self).moved_count + final(self).skipped_count == old(self).moved_count + old(self).skipped_count + 1,
            final(self).moved_count == old(self).moved_count + (if *outcome is Moved { 1int } else { 0int }),
            strings_view_f(final(self).created_folders@) == strings_view_f(old(self).created_folders@)
                + outcome_folder(*outcome),
            strings_view_f(final(self).errors@) == strings_view_f(old(self).errors@) + outcome_error(
                file_name@,
                *outcome,
            ),
    {
        proof {
            reveal_strlit(": ");
        }
        let ghost folders0 = strings_view_f(self.created_folders@);
        let ghost errors0 = strings_view_f(self.errors@);
        match outcome {
            MoveOutcome::SourceMissing => {
                self.skipped_count = self.skipped_count + 1;
                assert(strings_view_f(self.created_folders@) =~= folders0 + Seq::<Seq<char>>::empty());
                assert(strings_view_f(self.errors@) =~= errors0 + Seq::<Seq<char>>::empty());
            },
            MoveOutcome::FolderFailed { error } => {
                self.skipped_count = self.skipped_count + 1;
                self.errors.push(concat3(file_name, ": ", error.as_str()));
                assert(strings_view_f(self.created_folders@) =~= folders0 + Seq::<Seq<char>>::empty());
                assert(strings_view_f(self.errors@) =~= errors0 + seq![file_name@ + ": "@ + error@]);
            },
            MoveOutcome::Moved { created_folder } => {
                self.moved_count = self.moved_count + 1;
                match created_folder {
                    Some(f) => {
                        let ghost fv = f@;
                        self.created_folders.push(f.clone());
                        assert(strings_view_f(self.created_folders@) =~= folders0 + seq![fv]);
                    },
                    None => {
                        assert(strings_view_f(self.created_folders@) =~= folders0 + Seq::<Seq<char>>::empty());
                    },
                }
                assert(strings_view_f(self.errors@) =~= errors0 + Seq::<Seq<char>>::empty());
            },
            MoveOutcome::MoveFailed { created_folder, error } => {
                self.skipped_count = self.skipped_count + 1;
                match created_folder {
                    Some(f) => {
                        let ghost fv = f@;
                        self.created_folders.push(f.clone());
                        assert(strings_view_f(self.created_folders@) =~= folders0 + seq![fv]);
                    },
                    None => {
                        assert(strings_view_f(self.created_folders@) =~= folders0 + Seq::<Seq<char>>::empty());
                    },
                }
                self.errors.push(concat3(file_name, ": ", error.as_str()));
                assert(strings_view_f(self.errors@) =~= errors0 + seq![file_name@ + ": "@ + error@]);
            },
        }
    }

    /// The result of the run: every recorded candidate is counted once, as
    /// moved or as skipped; the made folders come sorted without repetition.
    pub fn finish(self, policy: FileGroupingPolicy) -> (r: FileGroupingResult)
        requires
            self.wf(),
            self.moved_count + self.skipped_count <= i64::MAX,
        ensures
            r.policy == policy,
            r.total_candidates == self.moved_count + self.skipped_count,
            r.moved_count == self.moved_count,
            r.skipped_count == self.skipped_count,
            r.moved_count + r.skipped_count == r.total_candidates,
            r.errors@.len() <= r.skipped_count,
            strictly_sorted(strings_view_f(r.created_folders@)),
            forall|x: Seq<char>| strings_view_f(r.created_folders@).contains(x) <==> strings_view_f(self.created_folders@).contains(x),
            r.errors == self.errors,
    {
        let folders = sorted_unique(&self.created_folders);
        FileGroupingResult {
            policy,
            total_candidates: self.moved_count + self.skipped_count,
            moved_count: self.moved_count,
            skipped_count: self.skipped_count,
            created_folders: folders,
            errors: self.errors,
        }
    }
}

/// The names of the candidates, in order.
pub open spec fn candidate_names(c: Seq<FileGroupingCandidate>) -> Seq<Seq<char>> {
    Seq::new(c.len(), |i: int| c[i].file_name@)
}

/// The result of a grouping run from the outcome of each candidate, in
/// order: every candidate is counted once, as moved or as skipped; the
/// errors, one for each failed folder or move, name their files; the made
/// folders come sorted without repetition.
pub fn grouping_run_result(
    policy: FileGroupingPolicy,
    candidates: &Vec<FileGroupingCandidate>,
    outcomes: &Vec<MoveOutcome>,
) -> (r: FileGroupingResult)
    requires
        outcomes@.len() == candidates@.len(),
        candidates@.len() <= i64::MAX,
    ensures
        r.policy == policy,
        r.total_candidates == candidates@.len(),
        r.moved_count + r.skipped_count == r.total_candidates,
        r.moved_count == run_moved(outcomes@),
        r.errors@.len() <= r.skipped_count,
        strings_view_f(r.errors@) == run_errors(candidate_names(candidates@), outcomes@),
        strictly_sorted(strings_view_f(r.created_folders@)),
        forall|x: Seq<char>| strings_view_f(r.created_folders@).contains(x) <==> run_folders(outcomes@).contains(x),
{
    let ghost names = candidate_names(candidates@);
    let mut tally = GroupingTally::new();
    let mut k: usize = 0;
    assert(strings_view_f(tally.created_folders@) =~= run_folders(outcomes@.take(0)));
    assert(strings_view_f(tally.errors@) =~= run_errors(names, outcomes@.take(0)));
    while k < outcomes.len()
        invariant
            outcomes@.len() == candidates@.len(),
            candidates@.len() <= i64::MAX,
            names == candidate_names(candidates@),
            k <= outcomes@.len(),
            tally.wf(),
            tally.moved_count + tally.skipped_count == k,
            tally.moved_count == run_moved(outcomes@.take(k as int)),
            strings_view_f(tally.created_folders@) == run_folders(outcomes@.take(k as int)),
            strings_view_f(tally.errors@) == run_errors(names, outcomes@.take(k as int)),
        decreases outcomes@.len() - k,
    {
        let ghost t = outcomes@.take(k + 1);
        tally.record(candidates[k].file_name.as_str(), &outcomes[k]);
        proof {
            assert(t.drop_last() =~= outcomes@.take(k as int));
            assert(t.last() == outcomes@[k as int]);
            assert(names[t.len() - 1] == candidates@[k as int].file_name@);
        }
        k = k + 1;
    }
    assert(outcomes@.take(outcomes@.len() as int) =~= outcomes@);
    tally.finish(policy)
}

/// A history entry after the file at `path` is opened at `now`: an entry of
/// that path keeps its id, takes the new name and time and counts one more
/// access; with no entry a new one is made with `new_id` and one access.
pub fn file_access_logged(existing: Option<&FileHistoryEntry>, new_id: i64, path: &str, name: &str, now: i64) -> (r: FileHistoryEntry)
    ensures
        r.path@ == path@,
        r.name@ == name@,
        r.last_accessed == now,
        match existing {
            Some(e) => r.id == e.id && r.access_count == (if e.access_count == i64::MAX {
                i64::MAX as int
            } else {
                e.access_count + 1
            }),
            None => r.id == new_id && r.access_count == 1,
        },
{
    let (id, count) = match existing {
        Some(e) => {
            let c = if e.access_count == i64::MAX {
                i64::MAX
            } else {
                e.access_count + 1
            };
            (e.id, c)
        },
        None => (new_id, 1i64),
    };
    FileHistoryEntry { id, path: lit(path), name: lit(name), last_accessed: now, access_count: count }
}

pub open spec fn strings_view_f(v: Seq<String>) -> Seq<Seq<char>> {
    crate::text::strings_view(v)
}

} // verus!
