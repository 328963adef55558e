//! The scanner's filter: which entries of a directory walk are candidates for
//! tag extraction.
//!
//! An entry is a candidate when it is a regular file whose name, put to lower
//! case, ends in `.mp3`. Entries that the walk could not read are passed over.

use crate::catalog::{entries_of, TagFields};
use regex::Regex;
use vstd::prelude::*;

verus! {

/// The root that is scanned when none is supplied.
pub const DEFAULT_ROOT: &'static str = "test_dir";

/// The extension that makes a file a candidate.
pub const MP3_EXTENSION: &'static str = ".mp3";

/// The regular expression for a name that ends in the extension.
pub const MP3_PATTERN: &'static str = "\\.mp3$";

/// One item of a directory walk.
#[derive(Clone, Debug)]
pub enum WalkItem {
    /// An entry that was read: whether it is a regular file, and its file name
    /// where the name is valid Unicode.
    Entry { is_file: bool, file_name: Option<String> },
    /// An entry that could not be read.
    Unreadable,
}

/// Whether `text` ends with `suffix`.
pub open spec fn ends_with(text: Seq<char>, suffix: Seq<char>) -> bool {
    &&& suffix.len() <= text.len()
    &&& text.subrange(text.len() - suffix.len(), text.len() as int) == suffix
}

/// The lower-case form of `text`, as `str::to_lowercase` gives it.
pub uninterp spec fn lowercase(text: Seq<char>) -> Seq<char>;

/// Calls `str::to_lowercase`. Its result is a function of the text alone, by the
/// case mappings of Unicode, which are not written out here: the contract only
/// gives the result its name.
#[verifier::external_body]
fn to_lowercase(text: &str) -> (lower: String)
    ensures
        lower@ == lowercase(text@),
{
    text.to_lowercase()
}

/// Calls `regex::Regex::new` and then `Regex::is_match`, for the one pattern
/// that the scanner uses. That pattern is an escaped dot, the three characters
/// `mp3`, each of which stands for itself, and `$`, which without the multi-line
/// flag matches only at the end of the haystack; `is_match` looks for a match
/// anywhere. So the pattern compiles, and it matches exactly the haystacks that
/// end in `.mp3`.
#[verifier::external_body]
fn regex_is_match(pattern: &str, haystack: &str) -> (found: bool)
    requires
        pattern@ == MP3_PATTERN@,
    ensures
        found == ends_with(haystack@, MP3_EXTENSION@),
{
    match Regex::new(pattern) {
        Ok(re) => re.is_match(haystack),
        Err(_) => false,
    }
}

/// Whether a file of this name is an MP3 file: its name in lower case ends with
/// the extension.
pub open spec fn is_mp3_name(file_name: Seq<char>) -> bool {
    ends_with(lowercase(file_name), MP3_EXTENSION@)
}

/// Whether a walk item is a candidate: a regular file with a Unicode name that
/// is an MP3 file's.
pub open spec fn is_candidate_item(item: WalkItem) -> bool {
    match item {
        WalkItem::Entry { is_file, file_name: Some(name) } => is_file && is_mp3_name(name@),
        _ => false,
    }
}

/// Whether `picked` lists the positions of the candidates among `items`: all of
/// them, nothing else, in the order of the walk.
pub open spec fn picks_candidates(items: Seq<WalkItem>, picked: Seq<usize>) -> bool {
    &&& forall|k: int|
        0 <= k < picked.len() ==> #[trigger] picked[k] < items.len() && is_candidate_item(
            items[picked[k] as int],
        )
    &&& forall|k: int, l: int| 0 <= k < l < picked.len() ==> #[trigger] picked[k] < #[trigger] picked[l]
    &&& forall|i: int|
        0 <= i < items.len() && is_candidate_item(#[trigger] items[i]) ==> exists|k: int|
            0 <= k < picked.len() && #[trigger] picked[k] == i
}

/// A walk without a candidate picks nothing.
pub proof fn lemma_no_candidate_picks_nothing(items: Seq<WalkItem>, picked: Seq<usize>)
    requires
        picks_candidates(items, picked),
        forall|i: int| 0 <= i < items.len() ==> !is_candidate_item(#[trigger] items[i]),
    ensures
        picked.len() == 0,
{
    if picked.len() > 0 {
        assert(is_candidate_item(items[picked[0] as int]));
    }
}

/// A walk without a candidate gives an empty catalog: nothing is picked, so no
/// tag is read, and the catalog of no tags has no entry.
pub proof fn lemma_no_candidate_empty_catalog(
    items: Seq<WalkItem>,
    picked: Seq<usize>,
    tags: Seq<TagFields>,
)
    requires
        picks_candidates(items, picked),
        tags.len() == picked.len(),
        forall|i: int| 0 <= i < items.len() ==> !is_candidate_item(#[trigger] items[i]),
    ensures
        entries_of(tags).len() == 0,
{
    lemma_no_candidate_picks_nothing(items, picked);
}

/// The positions picked are in the order of the walk, and none is picked twice:
/// of two candidates, the one met first is listed first.
pub proof fn lemma_picks_keep_walk_order(items: Seq<WalkItem>, picked: Seq<usize>, k: int, l: int)
    requires
        picks_candidates(items, picked),
        0 <= k < picked.len(),
        0 <= l < picked.len(),
    ensures
        k < l <==> picked[k] < picked[l],
        k == l <==> picked[k] == picked[l],
{
    if k < l {
        assert(picked[k] < picked[l]);
    } else if l < k {
        assert(picked[l] < picked[k]);
    }
}

/// The candidates of a walk have one list of positions only.
pub proof fn lemma_picks_are_unique(items: Seq<WalkItem>, first: Seq<usize>, second: Seq<usize>)
    requires
        picks_candidates(items, first),
        picks_candidates(items, second),
    ensures
        first == second,
{
    lemma_picks_agree(items, first, second, first.len() as int);
    lemma_picks_agree(items, second, first, second.len() as int);
    if first.len() < second.len() {
        let i = second[first.len() as int];
        assert(is_candidate_item(items[i as int]));
        let k = choose|k: int| 0 <= k < first.len() && #[trigger] first[k] == i;
        assert(second[k] < second[first.len() as int]);
    } else if second.len() < first.len() {
        let i = first[second.len() as int];
        assert(is_candidate_item(items[i as int]));
        let k = choose|k: int| 0 <= k < second.len() && #[trigger] second[k] == i;
        assert(first[k] < first[second.len() as int]);
    }
    assert(first =~= second);
}

/// Two lists of the candidates of one walk agree on their first `upto` positions,
/// as far as both reach.
proof fn lemma_picks_agree(items: Seq<WalkItem>, first: Seq<usize>, second: Seq<usize>, upto: int)
    requires
        picks_candidates(items, first),
        picks_candidates(items, second),
        0 <= upto <= first.len(),
    ensures
        forall|k: int| 0 <= k < upto && k < second.len() ==> first[k] == second[k],
    decreases upto,
{
    if upto > 0 {
        lemma_picks_agree(items, first, second, upto - 1);
        let k = upto - 1;
        if k < second.len() {
            let a = first[k];
            let b = second[k];
            assert(is_candidate_item(items[a as int]));
            assert(is_candidate_item(items[b as int]));
            let l = choose|l: int| 0 <= l < second.len() && #[trigger] second[l] == a;
            let m = choose|m: int| 0 <= m < first.len() && #[trigger] first[m] == b;
            if l < k {
                assert(first[l] == second[l]);
                assert(first[l] < first[k]);
            }
            if m < k {
                assert(first[m] == second[m]);
                assert(second[m] < second[k]);
            }
            if l > k {
                assert(second[k] < second[l]);
            }
            if m > k {
                assert(first[k] < first[m]);
            }
        }
    }
}

/// Whether a file name is an MP3 file's. A name that is not valid Unicode is
/// none.
pub fn is_mp3_file(file_name: Option<&str>) -> (found: bool)
    ensures
        found == match file_name {
            Some(name) => is_mp3_name(name@),
            None => false,
        },
{
    match file_name {
        Some(name) => {
            let lower = to_lowercase(name);
            regex_is_match(MP3_PATTERN, lower.as_str())
        },
        None => false,
    }
}

/// Whether a walk item is a candidate for tag extraction.
pub fn is_candidate(item: &WalkItem) -> (found: bool)
    ensures
        found == is_candidate_item(*item),
{
    match item {
        WalkItem::Entry { is_file, file_name: Some(name) } => *is_file && is_mp3_file(
            Some(name.as_str()),
        ),
        _ => false,
    }
}

/// Lists the positions of the candidates among the items of a walk, in the order
/// of the walk.
pub fn candidates(items: &Vec<WalkItem>) -> (picked: Vec<usize>)
    ensures
        picks_candidates(items@, picked@),
{
    let mut picked: Vec<usize> = Vec::new();
    let mut i: usize = 0;
    while i < items.len()
        invariant
            i <= items@.len(),
            picks_candidates(items@.take(i as int), picked@),
        decreases items@.len() - i,
    {
        let ghost before = picked@;
        if is_candidate(&items[i]) {
            picked.push(i);
            assert(picked@[before.len() as int] == i);
        }
        assert(items@.take(i + 1).drop_last() == items@.take(i as int));
        assert(forall|k: int| 0 <= k < before.len() ==> picked@[k] == before[k]);
        i += 1;
    }
    assert(items@.take(i as int) == items@);
    picked
}

/// The root to scan: the one supplied, or the default.
pub fn root_or_default(supplied: Option<String>) -> (root: String)
    ensures
        root@ == match supplied {
            Some(path) => path@,
            None => DEFAULT_ROOT@,
        },
{
    match supplied {
        Some(path) => path,
        None => String::from_str(DEFAULT_ROOT),
    }
}

} // verus!
