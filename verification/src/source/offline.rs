//! The offline browser: which directory entries are shown, and in what order.
use vstd::prelude::*;

use crate::text::{chars_of, contains, equals, has_infix};

verus! {

/// What the browser knows of one directory entry.
#[derive(Debug)]
pub struct EntryInfo {
    /// The full path, as text.
    pub path: String,
    /// The last component of the path.
    pub name: String,
    /// The entry is a directory (following symbolic links).
    pub is_dir: bool,
    /// The entry is a regular file (following symbolic links).
    pub is_file: bool,
}

// ---------------------------------------------------------------------------
// Names.
// ---------------------------------------------------------------------------

/// The video formats the offline browser offers (FFmpeg itself supports more).
pub open spec fn is_supported_extension(e: Seq<char>) -> bool {
    ||| e == "mp4"@
    ||| e == "mkv"@
    ||| e == "webm"@
    ||| e == "mov"@
    ||| e == "m4v"@
    ||| e == "avi"@
    ||| e == "wmv"@
    ||| e == "flv"@
    ||| e == "mpg"@
    ||| e == "mpeg"@
    ||| e == "ts"@
    ||| e == "mts"@
    ||| e == "m2ts"@
    ||| e == "3gp"@
    ||| e == "ogv"@
}

/// A character with ASCII letters in lower case.
pub open spec fn ascii_lower_char(c: char) -> char {
    if 'A' <= c <= 'Z' {
        ((c as u32) + 32) as char
    } else {
        c
    }
}

/// The index of the last `.` in `s`, or -1.
pub open spec fn last_dot(s: Seq<char>) -> int
    decreases s.len(),
{
    if s.len() == 0 {
        -1
    } else if s.last() == '.' {
        s.len() - 1
    } else {
        last_dot(s.drop_last())
    }
}

/// The extension of a file name, as `Path::extension` finds it: the text after
/// the last `.`, unless that dot starts the name.
pub open spec fn extension_of(name: Seq<char>) -> Option<Seq<char>> {
    if last_dot(name) > 0 {
        Some(name.skip(last_dot(name) + 1))
    } else {
        None
    }
}

/// A file name with a supported video extension, in any ASCII letter case.
pub open spec fn has_video_extension(name: Seq<char>) -> bool {
    match extension_of(name) {
        Some(e) => is_supported_extension(e.map_values(|c: char| ascii_lower_char(c))),
        None => false,
    }
}

/// Hidden files and directories start with a dot.
pub open spec fn is_hidden_name(name: Seq<char>) -> bool {
    name.len() > 0 && name[0] == '.'
}

/// Whether a file name has a supported video extension, in any ASCII letter case.
/// Whether the name is that of a regular file is for the caller to check.
pub fn is_video_file(name: &str) -> (b: bool)
    ensures
        b == has_video_extension(name@),
{
    let chars = chars_of(name);
    let mut i = chars.len();
    assert(chars@.take(i as int) =~= chars@);
    while i > 0 && chars[i - 1] != '.'
        invariant
            i <= chars@.len(),
            last_dot(chars@) == last_dot(chars@.take(i as int)),
        decreases i,
    {
        assert(chars@.take(i as int).drop_last() =~= chars@.take(i - 1));
        i = i - 1;
    }
    // `i` is one past the last dot, or 0 when there is none.
    if i <= 1 {
        proof {
            if i == 1 {
                assert(chars@.take(1).last() == '.');
            } else {
                assert(chars@.take(0).len() == 0);
            }
        }
        return false;
    }
    proof {
        assert(chars@.take(i as int).last() == '.');
        assert(last_dot(chars@) == i - 1);
    }
    let mut lower: Vec<char> = Vec::new();
    let mut j = i;
    while j < chars.len()
        invariant
            i <= j <= chars@.len(),
            lower@ == chars@.subrange(i as int, j as int).map_values(|c: char| ascii_lower_char(c)),
        decreases chars.len() - j,
    {
        let c = chars[j];
        let l = if 'A' <= c && c <= 'Z' { ((c as u32) + 32) as u8 as char } else { c };
        proof {
            if 'A' <= c && c <= 'Z' {
                assert(((c as u32) + 32) as u8 as char == ((c as u32) + 32) as char);
            }
        }
        lower.push(l);
        j = j + 1;
        assert(lower@ =~= chars@.subrange(i as int, j as int).map_values(|c: char| ascii_lower_char(c)));
    }
    assert(chars@.subrange(i as int, chars@.len() as int) =~= chars@.skip(i as int));
    equals(&lower, "mp4") || equals(&lower, "mkv") || equals(&lower, "webm") || equals(&lower, "mov")
        || equals(&lower, "m4v") || equals(&lower, "avi") || equals(&lower, "wmv") || equals(&lower, "flv")
        || equals(&lower, "mpg") || equals(&lower, "mpeg") || equals(&lower, "ts") || equals(&lower, "mts")
        || equals(&lower, "m2ts") || equals(&lower, "3gp") || equals(&lower, "ogv")
}

/// Hidden files and directories are ignored by the browser.
pub fn is_hidden(name: &str) -> (b: bool)
    ensures
        b == is_hidden_name(name@),
{
    let chars = chars_of(name);
    chars.len() > 0 && chars[0] == '.'
}

// ---------------------------------------------------------------------------
// Lower case.
// ---------------------------------------------------------------------------

/// The lowercase equivalent of a text, as `str::to_lowercase` computes it (the
/// Unicode `Lowercase` mapping, with a final capital sigma mapped by its context).
pub uninterp spec fn lowercase(s: Seq<char>) -> Seq<char>;

/// Calls `str::to_lowercase`. Its result is a function of the text alone; the
/// Unicode case tables are not restated here, so the result is only named. What
/// the documentation gives besides: every character lowers to one or more
/// characters, so the text never gets shorter, and empty text stays empty.
#[verifier::external_body]
fn to_lowercase(s: &str) -> (l: String)
    ensures
        l@ == lowercase(s@),
        s@.len() <= l@.len(),
        s@.len() == 0 ==> l@.len() == 0,
{
    s.to_lowercase()
}

// ---------------------------------------------------------------------------
// Ordering.
// ---------------------------------------------------------------------------

/// `a` sorts before or with `b`: lexicographic order by code point, a prefix first.
/// For UTF-8 text this is the byte order in which `OsString` and `String` compare.
pub open spec fn text_le(a: Seq<char>, b: Seq<char>) -> bool
    decreases a.len(),
{
    if a.len() == 0 {
        true
    } else if b.len() == 0 {
        false
    } else if a[0] != b[0] {
        a[0] < b[0]
    } else {
        text_le(a.drop_first(), b.drop_first())
    }
}

pub proof fn lemma_text_le_total(a: Seq<char>, b: Seq<char>)
    ensures
        text_le(a, b) || text_le(b, a),
    decreases a.len(),
{
    if a.len() > 0 && b.len() > 0 {
        if a[0] == b[0] {
            lemma_text_le_total(a.drop_first(), b.drop_first());
        }
    }
}

pub proof fn lemma_text_le_transitive(a: Seq<char>, b: Seq<char>, c: Seq<char>)
    requires
        text_le(a, b),
        text_le(b, c),
    ensures
        text_le(a, c),
    decreases a.len(),
{
    if a.len() > 0 && b.len() > 0 && c.len() > 0 && a[0] == b[0] && b[0] == c[0] {
        lemma_text_le_transitive(a.drop_first(), b.drop_first(), c.drop_first());
    }
}

pub proof fn lemma_text_le_reflexive(a: Seq<char>)
    ensures
        text_le(a, a),
    decreases a.len(),
{
    if a.len() > 0 {
        lemma_text_le_reflexive(a.drop_first());
    }
}

proof fn lemma_text_le_skip(a: Seq<char>, b: Seq<char>, i: int)
    requires
        0 <= i <= a.len(),
        i <= b.len(),
        forall|j: int| 0 <= j < i ==> a[j] == b[j],
    ensures
        text_le(a, b) == text_le(a.skip(i), b.skip(i)),
    decreases i,
{
    if i > 0 {
        assert(a.drop_first().skip(i - 1) =~= a.skip(i));
        assert(b.drop_first().skip(i - 1) =~= b.skip(i));
        lemma_text_le_skip(a.drop_first(), b.drop_first(), i - 1);
    } else {
        assert(a.skip(0) =~= a);
        assert(b.skip(0) =~= b);
    }
}

/// Whether `a` sorts strictly before `b`.
fn text_less(a: &Vec<char>, b: &Vec<char>) -> (r: bool)
    ensures
        r == !text_le(b@, a@),
{
    let mut i: usize = 0;
    while i < a.len() && i < b.len() && a[i] == b[i]
        invariant
            i <= a@.len(),
            i <= b@.len(),
            forall|j: int| 0 <= j < i ==> a@[j] == b@[j],
        decreases a.len() - i,
    {
        i = i + 1;
    }
    proof {
        lemma_text_le_skip(b@, a@, i as int);
        if i < a@.len() && i < b@.len() {
            assert(b@.skip(i as int)[0] == b@[i as int]);
            assert(a@.skip(i as int)[0] == a@[i as int]);
        }
    }
    if i == b.len() {
        false
    } else if i == a.len() {
        true
    } else {
        a[i] < b[i]
    }
}

/// How a list of entries is ordered.
#[derive(Debug, Clone, Copy, PartialEq, Eq, Structural)]
pub enum SortKey {
    /// Directories first, then by name.
    DirectoriesFirst,
    /// By name.
    Name,
    /// By the lowercase full path.
    LowercasePath,
}

/// The text an entry is ordered by: for `DirectoriesFirst` a `0` for a directory
/// or `1` for anything else, then the name.
pub open spec fn entry_key(by: SortKey, e: EntryInfo) -> Seq<char> {
    match by {
        SortKey::DirectoriesFirst => seq![if e.is_dir { '0' } else { '1' }] + e.name@,
        SortKey::Name => e.name@,
        SortKey::LowercasePath => lowercase(e.path@),
    }
}

/// Every entry sorts before or with every later one.
pub open spec fn sorted_by(s: Seq<EntryInfo>, by: SortKey) -> bool {
    forall|i: int, j: int| 0 <= i < j < s.len() ==> text_le(#[trigger] entry_key(by, s[i]), #[trigger] entry_key(by, s[j]))
}

fn key_of(e: &EntryInfo, by: SortKey) -> (k: Vec<char>)
    ensures
        k@ == entry_key(by, *e),
{
    match by {
        SortKey::DirectoriesFirst => {
            let mut k: Vec<char> = Vec::new();
            k.push(if e.is_dir { '0' } else { '1' });
            let name = chars_of(e.name.as_str());
            let mut i: usize = 0;
            while i < name.len()
                invariant
                    i <= name@.len(),
                    k@ == seq![if e.is_dir { '0' } else { '1' }] + name@.take(i as int),
                decreases name.len() - i,
            {
                k.push(name[i]);
                i = i + 1;
                assert(k@ =~= seq![if e.is_dir { '0' } else { '1' }] + name@.take(i as int));
            }
            assert(name@.take(name@.len() as int) =~= name@);
            k
        },
        SortKey::Name => chars_of(e.name.as_str()),
        SortKey::LowercasePath => {
            let lower = to_lowercase(e.path.as_str());
            chars_of(lower.as_str())
        },
    }
}

/// The entries of `s` whose key is `k`, in their order.
pub open spec fn with_key(s: Seq<EntryInfo>, by: SortKey, k: Seq<char>) -> Seq<EntryInfo> {
    s.filter(|e: EntryInfo| entry_key(by, e) == k)
}

/// Inserting an entry in front of entries with other keys adds it at the end of
/// its own key's group and leaves the other groups as they were.
proof fn lemma_insert_groups(before: Seq<EntryInfo>, p: int, item: EntryInfo, by: SortKey, k: Seq<char>)
    requires
        0 <= p <= before.len(),
        forall|i: int| p <= i < before.len() ==> entry_key(by, #[trigger] before[i]) != entry_key(by, item),
    ensures
        with_key(before.insert(p, item), by, k) == (if entry_key(by, item) == k {
            with_key(before, by, k).push(item)
        } else {
            with_key(before, by, k)
        }),
{
    let pred = |e: EntryInfo| entry_key(by, e) == k;
    let a = before.take(p);
    let b = before.skip(p);
    let one = seq![item];
    assert(before.insert(p, item) =~= a + one + b);
    assert(before =~= a + b);
    Seq::filter_distributes_over_add(a + one, b, pred);
    Seq::filter_distributes_over_add(a, one, pred);
    Seq::filter_distributes_over_add(a, b, pred);
    assert(Seq::<EntryInfo>::empty().push(item) =~= one);
    Seq::<EntryInfo>::empty().lemma_filter_push(item, pred);
    Seq::<EntryInfo>::empty().lemma_filter_len(pred);
    if entry_key(by, item) == k {
        let other = |x: EntryInfo| !pred(x);
        assert forall|i: int| 0 <= i < b.len() implies #[trigger] other(b[i]) by {
            assert(b[i] == before[p + i]);
        }
        assert(b.all(other));
        b.lemma_all_neg_filter_empty(pred);
        assert(b.filter(pred) =~= Seq::<EntryInfo>::empty());
        assert(with_key(before.insert(p, item), by, k) =~= with_key(before, by, k).push(item));
    } else {
        assert(one.filter(pred) =~= Seq::<EntryInfo>::empty());
        assert(with_key(before.insert(p, item), by, k) =~= with_key(before, by, k));
    }
}

/// Sorts entries by a key, keeping entries with equal keys in their order.
pub fn sort_entries(items: Vec<EntryInfo>, by: SortKey) -> (r: Vec<EntryInfo>)
    ensures
        r@.to_multiset() == items@.to_multiset(),
        sorted_by(r@, by),
        forall|k: Seq<char>| #[trigger] with_key(r@, by, k) == with_key(items@, by, k),
{
    broadcast use vstd::seq_lib::group_to_multiset_ensures;

    let ghost given = items@;
    let mut items = items;
    let mut r: Vec<EntryInfo> = Vec::new();
    let ghost mut done: int = 0;
    assert(given.take(0) =~= Seq::<EntryInfo>::empty());
    assert(given.skip(0) =~= given);
    while items.len() > 0
        invariant
            0 <= done <= given.len(),
            items@ == given.skip(done),
            r@.to_multiset() == given.take(done).to_multiset(),
            sorted_by(r@, by),
            forall|k: Seq<char>| #[trigger] with_key(r@, by, k) == with_key(given.take(done), by, k),
        decreases items.len(),
    {
        let item = items.remove(0);
        let key = key_of(&item, by);
        // Insert after every entry whose key is not greater.
        let mut p: usize = 0;
        let mut found = false;
        while p < r.len() && !found
            invariant
                p <= r@.len(),
                key@ == entry_key(by, item),
                forall|i: int| 0 <= i < p ==> text_le(#[trigger] entry_key(by, r@[i]), key@),
                found ==> p < r@.len() && !text_le(entry_key(by, r@[p as int]), key@),
            decreases r.len() - p, if found { 0int } else { 1int },
        {
            let other = key_of(&r[p], by);
            if text_less(&key, &other) {
                found = true;
            } else {
                p = p + 1;
            }
        }
        proof {
            let s = r@;
            assert forall|i: int| p <= i < s.len() implies !text_le(#[trigger] entry_key(by, s[i]), key@) by {
                if found {
                    if i > p {
                        if text_le(entry_key(by, s[i]), key@) {
                            lemma_text_le_transitive(entry_key(by, s[p as int]), entry_key(by, s[i]), key@);
                        }
                    }
                }
            }
            assert forall|i: int| p <= i < s.len() implies text_le(key@, #[trigger] entry_key(by, s[i])) by {
                lemma_text_le_total(key@, entry_key(by, s[i]));
            }
        }
        let ghost before = r@;
        r.insert(p, item);
        proof {
            vstd::seq_lib::to_multiset_insert(before, p as int, item);
            assert(given.take(done + 1) =~= given.take(done).push(given[done]));
            assert(given[done] == item);
            vstd::seq_lib::to_multiset_build(given.take(done), item);
            assert(items@ =~= given.skip(done + 1));
            assert forall|i: int| p <= i < before.len() implies entry_key(by, #[trigger] before[i]) != key@ by {
                lemma_text_le_reflexive(key@);
            }
            let prefix = given.take(done);
            assert forall|k: Seq<char>| #[trigger] with_key(r@, by, k) == with_key(given.take(done + 1), by, k) by {
                lemma_insert_groups(before, p as int, item, by, k);
                prefix.lemma_filter_push(item, |e: EntryInfo| entry_key(by, e) == k);
            }
            done = done + 1;
            assert forall|i: int, j: int| 0 <= i < j < r@.len() implies text_le(
                #[trigger] entry_key(by, r@[i]),
                #[trigger] entry_key(by, r@[j]),
            ) by {
                if i < p && j == p {
                } else if i < p && j > p {
                    assert(r@[j] == before[j - 1]);
                    lemma_text_le_transitive(entry_key(by, before[i]), key@, entry_key(by, before[j - 1]));
                } else if i == p {
                    assert(r@[j] == before[j - 1]);
                } else if j < p {
                } else {
                    assert(r@[i] == before[i - 1]);
                    assert(r@[j] == before[j - 1]);
                }
            }
        }
    }
    proof {
        assert(given.take(done) =~= given);
    }
    r
}

// ---------------------------------------------------------------------------
// Listings.
// ---------------------------------------------------------------------------

/// Which entries a listing keeps.
#[derive(Debug, Clone, Copy, PartialEq, Eq, Structural)]
pub enum Listing {
    /// Visible directories and visible video files.
    Browse,
    /// Visible video files.
    VideoFiles,
    /// Visible video files whose lowercase path contains the (lowercase) query.
    Search,
}

/// Whether a listing keeps an entry; `query` is the lowercase search text.
pub open spec fn keeps(listing: Listing, query: Seq<char>, e: EntryInfo) -> bool {
    let video = e.is_file && has_video_extension(e.name@);
    !is_hidden_name(e.name@) && match listing {
        Listing::Browse => e.is_dir || video,
        Listing::VideoFiles => video,
        Listing::Search => video && has_infix(lowercase(e.path@), query),
    }
}

fn keep_entry(listing: Listing, query: &str, e: &EntryInfo) -> (b: bool)
    ensures
        b == keeps(listing, query@, *e),
{
    if is_hidden(e.name.as_str()) {
        return false;
    }
    let video = e.is_file && is_video_file(e.name.as_str());
    match listing {
        Listing::Browse => e.is_dir || video,
        Listing::VideoFiles => video,
        Listing::Search => {
            if !video {
                return false;
            }
            let lower = to_lowercase(e.path.as_str());
            contains(&chars_of(lower.as_str()), query)
        },
    }
}

/// The entries a listing keeps, in their order.
pub fn filter_entries(items: Vec<EntryInfo>, listing: Listing, query: &str) -> (r: Vec<EntryInfo>)
    ensures
        r@ == items@.filter(|e: EntryInfo| keeps(listing, query@, e)),
{
    let ghost given = items@;
    let ghost pred = |e: EntryInfo| keeps(listing, query@, e);
    let mut items = items;
    let mut r: Vec<EntryInfo> = Vec::new();
    let ghost mut done: int = 0;
    assert(given.take(0).filter(pred) =~= Seq::<EntryInfo>::empty()) by {
        reveal(Seq::filter);
    }
    assert(given.skip(0) =~= given);
    while items.len() > 0
        invariant
            0 <= done <= given.len(),
            pred == (|e: EntryInfo| keeps(listing, query@, e)),
            items@ == given.skip(done),
            r@ == given.take(done).filter(pred),
        decreases items.len(),
    {
        let item = items.remove(0);
        let keep = keep_entry(listing, query, &item);
        proof {
            assert(given[done] == item);
            assert(given.take(done + 1) =~= given.take(done).push(item));
            given.take(done).lemma_filter_push(item, pred);
        }
        if keep {
            r.push(item);
        }
        proof {
            assert(items@ =~= given.skip(done + 1));
            done = done + 1;
        }
    }
    assert(given.take(done) =~= given);
    r
}

/// The text to search for, in lower case; an empty result means browsing.
pub fn search_text(query: &str) -> (q: String)
    ensures
        q@ == lowercase(query@),
        q@.len() == 0 <==> query@.len() == 0,
{
    to_lowercase(query)
}

/// Video files directly inside a folder, by name.
pub fn load_video_files(listing: Vec<EntryInfo>) -> (r: Vec<EntryInfo>)
    ensures
        r@.to_multiset() == listing@.filter(|e: EntryInfo| keeps(Listing::VideoFiles, ""@, e)).to_multiset(),
        sorted_by(r@, SortKey::Name),
        forall|k: Seq<char>|
            #[trigger] with_key(r@, SortKey::Name, k) == with_key(
                listing@.filter(|e: EntryInfo| keeps(Listing::VideoFiles, ""@, e)),
                SortKey::Name,
                k,
            ),
{
    let kept = filter_entries(listing, Listing::VideoFiles, "");
    sort_entries(kept, SortKey::Name)
}

/// The entries the browser shows for `listing` and the search text `query`.
///
/// Without search text the listing is a folder's contents: visible directories
/// and video files, directories first, then by name. With search text it is the
/// visible files found below the folder: the video files whose lowercase path
/// contains the lowercase search text, by lowercase path.
pub fn load_entries(listing: Vec<EntryInfo>, query: &str) -> (r: Vec<EntryInfo>)
    ensures
        query@.len() == 0 ==> r@.to_multiset() == listing@.filter(
            |e: EntryInfo| keeps(Listing::Browse, lowercase(query@), e),
        ).to_multiset() && sorted_by(r@, SortKey::DirectoriesFirst),
        query@.len() == 0 ==> forall|k: Seq<char>|
            #[trigger] with_key(r@, SortKey::DirectoriesFirst, k) == with_key(
                listing@.filter(|e: EntryInfo| keeps(Listing::Browse, lowercase(query@), e)),
                SortKey::DirectoriesFirst,
                k,
            ),
        query@.len() > 0 ==> r@.to_multiset() == listing@.filter(
            |e: EntryInfo| keeps(Listing::Search, lowercase(query@), e),
        ).to_multiset() && sorted_by(r@, SortKey::LowercasePath),
        query@.len() > 0 ==> forall|k: Seq<char>|
            #[trigger] with_key(r@, SortKey::LowercasePath, k) == with_key(
                listing@.filter(|e: EntryInfo| keeps(Listing::Search, lowercase(query@), e)),
                SortKey::LowercasePath,
                k,
            ),
{
    let q = search_text(query);
    if q.as_str().is_empty() {
        let kept = filter_entries(listing, Listing::Browse, q.as_str());
        sort_entries(kept, SortKey::DirectoriesFirst)
    } else {
        let kept = filter_entries(listing, Listing::Search, q.as_str());
        sort_entries(kept, SortKey::LowercasePath)
    }
}

/// A search finds a visible regular video file exactly when the lowercase text
/// of its full path contains the lowercase search text, so a folder name on the
/// path matches as well as the file name. `r` is any listing the search gives
/// for `listing` (as `load_entries` does for a non-empty `query`).
pub proof fn lemma_search_by_path(listing: Seq<EntryInfo>, query: Seq<char>, r: Seq<EntryInfo>, e: EntryInfo)
    requires
        r.to_multiset() == listing.filter(|x: EntryInfo| keeps(Listing::Search, lowercase(query), x)).to_multiset(),
        listing.contains(e),
        !is_hidden_name(e.name@),
        e.is_file,
        has_video_extension(e.name@),
    ensures
        r.contains(e) <==> has_infix(lowercase(e.path@), lowercase(query)),
{
    broadcast use vstd::seq_lib::group_to_multiset_ensures;

    let pred = |x: EntryInfo| keeps(Listing::Search, lowercase(query), x);
    let kept = listing.filter(pred);
    assert(r.contains(e) <==> kept.contains(e)) by {
        assert(r.contains(e) <==> r.to_multiset().count(e) > 0);
        assert(kept.contains(e) <==> kept.to_multiset().count(e) > 0);
    }
    if kept.contains(e) {
        let k = choose|k: int| 0 <= k < kept.len() && kept[k] == e;
        listing.lemma_filter_pred(pred, k);
    }
    if has_infix(lowercase(e.path@), lowercase(query)) {
        let i = choose|i: int| 0 <= i < listing.len() && listing[i] == e;
        listing.lemma_filter_contains(pred, i);
    }
}

/// In a listing ordered with directories first, no directory comes after a
/// non-directory.
pub proof fn lemma_directories_first(s: Seq<EntryInfo>)
    requires
        sorted_by(s, SortKey::DirectoriesFirst),
    ensures
        forall|i: int, j: int| 0 <= i < j < s.len() && (#[trigger] s[j]).is_dir ==> (#[trigger] s[i]).is_dir,
{
    assert forall|i: int, j: int| 0 <= i < j < s.len() && (#[trigger] s[j]).is_dir implies (#[trigger] s[i]).is_dir by {
        let a = entry_key(SortKey::DirectoriesFirst, s[i]);
        let b = entry_key(SortKey::DirectoriesFirst, s[j]);
        assert(text_le(a, b));
        assert(a[0] == (if s[i].is_dir { '0' } else { '1' }));
        assert(b[0] == '0');
    }
}

/// The browser never shows a hidden entry, and shows only directories and video
/// files: every entry of a listing is one the listing keeps.
pub proof fn lemma_listing_keeps(items: Seq<EntryInfo>, r: Seq<EntryInfo>, listing: Listing, query: Seq<char>)
    requires
        r.to_multiset() == items.filter(|e: EntryInfo| keeps(listing, query, e)).to_multiset(),
    ensures
        forall|i: int| 0 <= i < r.len() ==> keeps(listing, query, #[trigger] r[i]),
        forall|i: int| 0 <= i < r.len() ==> !is_hidden_name((#[trigger] r[i]).name@),
{
    broadcast use vstd::seq_lib::group_to_multiset_ensures;

    let pred = |e: EntryInfo| keeps(listing, query, e);
    let kept = items.filter(pred);
    assert forall|i: int| 0 <= i < r.len() implies keeps(listing, query, #[trigger] r[i]) by {
        assert(r.contains(r[i]));
        assert(r.to_multiset().count(r[i]) > 0);
        assert(kept.contains(r[i]));
        let k = choose|k: int| 0 <= k < kept.len() && kept[k] == r[i];
        items.lemma_filter_pred(pred, k);
    }
}

} // verus!
