//! Discovery: which entries of a directory listing are to be relocated for a
//! given extension.

use vstd::prelude::*;
use vstd::string::*;
use crate::text::{lowercase_of, same_text};

verus! {

/// An extension argument without one leading dot, if it has any.
pub open spec fn without_leading_dot(raw: Seq<char>) -> Seq<char> {
    if raw.len() > 0 && raw[0] == '.' {
        raw.drop_first()
    } else {
        raw
    }
}

/// The form in which an extension argument is compared: one leading dot
/// removed, the rest in lowercase.
pub open spec fn normalized_extension(raw: Seq<char>) -> Seq<char> {
    lowercase_of(without_leading_dot(raw))
}

/// Whether two extension arguments differ at most in the case of their
/// letters, a leading dot set aside.
pub open spec fn same_ignoring_case(a: Seq<char>, b: Seq<char>) -> bool {
    lowercase_of(without_leading_dot(a)) == lowercase_of(without_leading_dot(b))
}

/// Removes one leading dot from an extension argument.
pub fn strip_leading_dot(raw: &str) -> (bare: &str)
    ensures
        bare@ == without_leading_dot(raw@),
{
    let n: usize = raw.unicode_len();
    if n > 0 && raw.get_char(0) == '.' {
        let bare = raw.substring_char(1, n);
        assert(bare@ =~= raw@.drop_first());
        bare
    } else {
        raw
    }
}

/// Normalizes an extension argument: `.MOV` and `mov` both give `mov`.
pub fn normalize_extension(raw: &str) -> (extension: String)
    ensures
        extension@ == normalized_extension(raw@),
{
    strip_leading_dot(raw).to_lowercase()
}

/// The place of the last dot in a file name, or -1 where it has none.
pub open spec fn last_dot(name: Seq<char>) -> int
    decreases name.len(),
{
    if name.len() == 0 {
        -1
    } else if name.last() == '.' {
        name.len() - 1
    } else {
        last_dot(name.drop_last())
    }
}

/// The extension of a file name: what follows its last dot. A name without a
/// dot has none, nor has one whose only dot comes first, nor has `..`.
pub open spec fn extension_of(name: Seq<char>) -> Option<Seq<char>> {
    if name == seq!['.', '.'] || last_dot(name) <= 0 {
        None
    } else {
        Some(name.subrange(last_dot(name) + 1, name.len() as int))
    }
}

proof fn lemma_last_dot(name: Seq<char>, at: int)
    requires
        -1 <= at < name.len(),
        at >= 0 ==> name[at] == '.',
        forall|k: int| at < k < name.len() ==> #[trigger] name[k] != '.',
    ensures
        last_dot(name) == at,
    decreases name.len(),
{
    if name.len() > 0 && at < name.len() - 1 {
        assert(name[name.len() - 1] != '.');
        let front = name.drop_last();
        assert forall|k: int| at < k < front.len() implies #[trigger] front[k] != '.' by {
            assert(front[k] == name[k]);
        }
        lemma_last_dot(front, at);
    }
}

/// The extension of a file name, if it has one.
pub fn file_extension(name: &str) -> (extension: Option<&str>)
    ensures
        match extension {
            Some(found) => extension_of(name@) == Some(found@),
            None => extension_of(name@) is None,
        },
{
    let n: usize = name.unicode_len();
    let mut at: usize = n;
    while at > 0
        invariant_except_break
            at <= n,
        invariant
            n == name@.len(),
            forall|k: int| at <= k < n ==> #[trigger] name@[k] != '.',
        ensures
            at <= n,
            at > 0 ==> name@[at - 1] == '.',
        decreases at,
    {
        if name.get_char(at - 1) == '.' {
            break ;
        }
        at -= 1;
    }
    proof {
        lemma_last_dot(name@, at - 1);
    }
    if at <= 1 {
        return None;
    }
    if n == 2 && name.get_char(0) == '.' {
        assert(name@ =~= seq!['.', '.']);
        return None;
    }
    assert(name@ != seq!['.', '.']) by {
        if name@ == seq!['.', '.'] {
            assert(name@.len() == 2 && name@[0] == '.');
        }
    }
    Some(name.substring_char(at, n))
}

/// The extension of a file name in lowercase, if the name has one.
pub open spec fn folded_extension_of(name: Seq<char>) -> Option<Seq<char>> {
    match extension_of(name) {
        Some(extension) => Some(lowercase_of(extension)),
        None => None,
    }
}

/// The extension of a file name in lowercase, if the name has one.
pub fn folded_extension(name: &str) -> (folded: Option<String>)
    ensures
        match folded {
            Some(found) => folded_extension_of(name@) == Some(found@),
            None => folded_extension_of(name@) is None,
        },
{
    match file_extension(name) {
        Some(extension) => Some(extension.to_lowercase()),
        None => None,
    }
}

/// One entry of a directory listing.
#[derive(Debug, PartialEq, Eq)]
pub struct Entry {
    /// Where the entry lies.
    pub path: String,
    /// Its name within its directory.
    pub name: String,
    /// Whether it is a regular file, links followed.
    pub regular_file: bool,
}

/// An entry as plain values.
pub struct EntryView {
    pub path: Seq<char>,
    pub name: Seq<char>,
    pub regular_file: bool,
}

impl View for Entry {
    type V = EntryView;

    open spec fn view(&self) -> EntryView {
        EntryView { path: self.path@, name: self.name@, regular_file: self.regular_file }
    }
}

impl Entry {
    /// An entry with the given path, name and kind.
    pub fn new(path: &str, name: &str, regular_file: bool) -> (entry: Entry)
        ensures
            entry@ == (EntryView { path: path@, name: name@, regular_file }),
    {
        Entry { path: String::from_str(path), name: String::from_str(name), regular_file }
    }

    /// A copy of the entry.
    pub fn duplicate(&self) -> (copy: Entry)
        ensures
            copy@ == self@,
    {
        Entry {
            path: self.path.clone(),
            name: self.name.clone(),
            regular_file: self.regular_file,
        }
    }
}

/// What a list of entries holds, entry by entry.
pub open spec fn entry_views(entries: Seq<Entry>) -> Seq<EntryView> {
    entries.map_values(|entry: Entry| entry@)
}

/// Whether an entry is to be relocated for an extension: it is a regular file
/// and its extension, in lowercase, is the extension asked for.
pub open spec fn is_match(entry: EntryView, extension: Seq<char>) -> bool {
    entry.regular_file && folded_extension_of(entry.name) == Some(extension)
}

/// The test that `is_match` makes, as a predicate on entries.
pub open spec fn matching(extension: Seq<char>) -> spec_fn(EntryView) -> bool {
    |entry: EntryView| is_match(entry, extension)
}

/// The entries of a listing that are to be relocated, in the order of the
/// listing.
pub open spec fn match_set(listing: Seq<EntryView>, extension: Seq<char>) -> Seq<EntryView> {
    listing.filter(matching(extension))
}

/// Decides on one entry from its kind and its extension in lowercase.
pub fn is_selected(regular_file: bool, folded: &Option<String>, extension: &str) -> (selected:
    bool)
    ensures
        selected == (regular_file && match folded {
            Some(found) => found@ == extension@,
            None => false,
        }),
{
    if !regular_file {
        return false;
    }
    match folded {
        Some(found) => same_text(found.as_str(), extension),
        None => false,
    }
}

/// The entries of a listing that are to be relocated for an extension: exactly
/// the regular files whose extension equals it when case is ignored, in the
/// order of the listing.
pub fn discover(listing: &Vec<Entry>, extension: &str) -> (matches: Vec<Entry>)
    ensures
        entry_views(matches@) == match_set(entry_views(listing@), extension@),
{
    let mut matches: Vec<Entry> = Vec::new();
    let n: usize = listing.len();
    let mut i: usize = 0;
    proof {
        reveal(Seq::filter);
        assert(entry_views(listing@).take(0) =~= Seq::<EntryView>::empty());
        assert(entry_views(matches@) =~= Seq::<EntryView>::empty());
    }
    while i < n
        invariant
            i <= n,
            n == listing@.len(),
            entry_views(matches@) == match_set(entry_views(listing@).take(i as int), extension@),
        decreases n - i,
    {
        let entry: &Entry = &listing[i];
        let folded: Option<String> = folded_extension(entry.name.as_str());
        let selected: bool = is_selected(entry.regular_file, &folded, extension);
        proof {
            reveal(Seq::filter);
            let views = entry_views(listing@);
            let before = views.take(i as int);
            let now = views.take(i + 1);
            assert(now.drop_last() =~= before);
            assert(now.last() == entry@);
            assert(selected == is_match(entry@, extension@));
        }
        if selected {
            let ghost earlier = entry_views(matches@);
            matches.push(entry.duplicate());
            assert(entry_views(matches@) =~= earlier.push(entry@));
        }
        i += 1;
    }
    assert(entry_views(listing@).take(n as int) =~= entry_views(listing@));
    matches
}

/// The entries of a listing that are not to be relocated.
pub open spec fn unmatched(listing: Seq<EntryView>, extension: Seq<char>) -> Seq<EntryView> {
    listing.filter(|entry: EntryView| !is_match(entry, extension))
}

proof fn lemma_no_match(listing: Seq<EntryView>, extension: Seq<char>)
    requires
        forall|i: int| 0 <= i < listing.len() ==> !is_match(#[trigger] listing[i], extension),
    ensures
        match_set(listing, extension) == Seq::<EntryView>::empty(),
    decreases listing.len(),
{
    reveal(Seq::filter);
    if listing.len() > 0 {
        let front = listing.drop_last();
        assert forall|i: int| 0 <= i < front.len() implies !is_match(
            #[trigger] front[i],
            extension,
        ) by {
            assert(front[i] == listing[i]);
        }
        lemma_no_match(front, extension);
        assert(!is_match(listing[listing.len() - 1], extension));
    }
}

/// The match set holds the regular files of the listing whose extension is the
/// one asked for, and nothing else: no directory, no file with another
/// extension, nothing that the listing does not hold.
pub proof fn law_match_set_is_exact(listing: Seq<EntryView>, extension: Seq<char>, entry: EntryView)
    ensures
        match_set(listing, extension).contains(entry) <==> listing.contains(entry)
            && entry.regular_file && folded_extension_of(entry.name) == Some(extension),
{
    let pred = matching(extension);
    let found = match_set(listing, extension);
    if found.contains(entry) {
        let i = choose|i: int| 0 <= i < found.len() && found[i] == entry;
        listing.lemma_filter_pred(pred, i);
        listing.lemma_filter_contains_rev(pred, entry);
    }
    if listing.contains(entry) && is_match(entry, extension) {
        let i = choose|i: int| 0 <= i < listing.len() && listing[i] == entry;
        listing.lemma_filter_contains(pred, i);
    }
}

/// The case in which the extension argument is written makes no difference,
/// nor does a leading dot: two arguments that agree when case is ignored give
/// the same match set on every listing.
pub proof fn law_case_of_argument(listing: Seq<EntryView>, a: Seq<char>, b: Seq<char>)
    requires
        same_ignoring_case(a, b),
    ensures
        match_set(listing, normalized_extension(a)) == match_set(listing, normalized_extension(b)),
{
}

/// After a run that moved every match away, a second scan finds nothing:
/// whatever the directory lists then, if its regular files are among those that
/// the first scan left unmatched, its match set is empty.
pub proof fn law_second_scan_is_empty(
    listing: Seq<EntryView>,
    extension: Seq<char>,
    later: Seq<EntryView>,
)
    requires
        forall|i: int|
            0 <= i < later.len() && later[i].regular_file ==> unmatched(listing, extension).contains(
                #[trigger] later[i],
            ),
    ensures
        match_set(later, extension) == Seq::<EntryView>::empty(),
{
    let kept = |entry: EntryView| !is_match(entry, extension);
    assert forall|i: int| 0 <= i < later.len() implies !is_match(
        #[trigger] later[i],
        extension,
    ) by {
        if later[i].regular_file {
            let left = unmatched(listing, extension);
            let k = choose|k: int| 0 <= k < left.len() && left[k] == later[i];
            listing.lemma_filter_pred(kept, k);
        }
    }
    lemma_no_match(later, extension);
}

} // verus!
