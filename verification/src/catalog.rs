//! The catalog: the ordered list of audio files whose tags were extracted.
//!
//! A catalog is built once from the tags of the discovered files, in the order in
//! which the files were discovered, and is read-only afterwards.

use vstd::prelude::*;

verus! {

/// The three text fields of a tag.
#[derive(Clone, Copy, PartialEq, Eq, Structural, Debug)]
pub enum Field {
    Title,
    Artist,
    Album,
}

/// What was read from one file's tag: each field is there or is not.
#[derive(Clone, Debug)]
pub struct TagFields {
    pub title: Option<String>,
    pub artist: Option<String>,
    pub album: Option<String>,
}

/// The mathematical value of a [`TagFields`].
pub struct TagFieldsView {
    pub title: Option<Seq<char>>,
    pub artist: Option<Seq<char>>,
    pub album: Option<Seq<char>>,
}

/// The text of an optional string.
pub open spec fn text_of(field: Option<String>) -> Option<Seq<char>> {
    match field {
        Some(s) => Some(s@),
        None => None,
    }
}

impl View for TagFields {
    type V = TagFieldsView;

    open spec fn view(&self) -> TagFieldsView {
        TagFieldsView {
            title: text_of(self.title),
            artist: text_of(self.artist),
            album: text_of(self.album),
        }
    }
}

impl TagFieldsView {
    /// The first field, in the order title, artist, album, that the tag lacks.
    pub open spec fn missing(self) -> Option<Field> {
        if self.title is None {
            Some(Field::Title)
        } else if self.artist is None {
            Some(Field::Artist)
        } else if self.album is None {
            Some(Field::Album)
        } else {
            None
        }
    }

    /// The catalog entry that a tag with all three fields stands for.
    pub open spec fn entry(self) -> EntryView
        recommends
            self.missing() is None,
    {
        EntryView { title: self.title->0, artist: self.artist->0, album: self.album->0 }
    }
}

/// The mathematical value of a [`CatalogEntry`].
pub struct EntryView {
    pub title: Seq<char>,
    pub artist: Seq<char>,
    pub album: Seq<char>,
}

/// One discovered audio file, as the table shows it. Never changed once built.
#[derive(Clone, Debug)]
pub struct CatalogEntry {
    title: String,
    artist: String,
    album: String,
}

impl View for CatalogEntry {
    type V = EntryView;

    closed spec fn view(&self) -> EntryView {
        EntryView { title: self.title@, artist: self.artist@, album: self.album@ }
    }
}

/// Why a tag could not become a catalog entry.
#[derive(Clone, Copy, PartialEq, Eq, Structural, Debug)]
pub enum ExtractError {
    /// The tag at position `index` has no `field`.
    MissingField { index: usize, field: Field },
}

impl CatalogEntry {
    pub fn new(title: String, artist: String, album: String) -> (entry: CatalogEntry)
        ensures
            entry@ == (EntryView { title: title@, artist: artist@, album: album@ }),
    {
        CatalogEntry { title, artist, album }
    }

    /// Builds the entry of a tag, or names the first field that the tag lacks.
    pub fn from_tag(tag: &TagFields) -> (made: Result<CatalogEntry, Field>)
        ensures
            match made {
                Ok(entry) => tag@.missing() is None && entry@ == tag@.entry(),
                Err(field) => tag@.missing() == Some(field),
            },
    {
        match (&tag.title, &tag.artist, &tag.album) {
            (None, _, _) => Err(Field::Title),
            (Some(_), None, _) => Err(Field::Artist),
            (Some(_), Some(_), None) => Err(Field::Album),
            (Some(title), Some(artist), Some(album)) => Ok(
                CatalogEntry { title: title.clone(), artist: artist.clone(), album: album.clone() },
            ),
        }
    }

    pub fn title(&self) -> (text: &str)
        ensures
            text@ == self@.title,
    {
        self.title.as_str()
    }

    pub fn artist(&self) -> (text: &str)
        ensures
            text@ == self@.artist,
    {
        self.artist.as_str()
    }

    pub fn album(&self) -> (text: &str)
        ensures
            text@ == self@.album,
    {
        self.album.as_str()
    }
}

/// The entries that `tags` stand for, in the same order.
pub open spec fn entries_of(tags: Seq<TagFields>) -> Seq<EntryView> {
    Seq::new(tags.len(), |i: int| tags[i]@.entry())
}

/// The catalog keeps the order of discovery: it has one entry for each tag, and
/// the entry at each position is that of the tag at the same position.
pub proof fn lemma_catalog_keeps_discovery_order(tags: Seq<TagFields>, i: int)
    requires
        0 <= i < tags.len(),
    ensures
        entries_of(tags).len() == tags.len(),
        entries_of(tags)[i] == tags[i]@.entry(),
{
}

/// No tags give an empty catalog.
pub proof fn lemma_no_tags_no_entries(tags: Seq<TagFields>)
    requires
        tags.len() == 0,
    ensures
        entries_of(tags).len() == 0,
{
}

/// The ordered, index-addressable list of entries.
#[derive(Clone, Debug)]
pub struct Catalog {
    entries: Vec<CatalogEntry>,
}

impl View for Catalog {
    type V = Seq<EntryView>;

    closed spec fn view(&self) -> Seq<EntryView> {
        Seq::new(self.entries@.len(), |i: int| self.entries@[i]@)
    }
}

impl Catalog {
    /// The catalog of a scan that found nothing.
    pub fn new() -> (catalog: Catalog)
        ensures
            catalog@.len() == 0,
    {
        Catalog { entries: Vec::new() }
    }

    /// Builds the catalog of `tags`, one entry for each tag and in the same order.
    ///
    /// Succeeds exactly when every tag has its three fields. Otherwise the error
    /// names the first tag that lacks one, and that tag's first missing field.
    pub fn from_tags(tags: &Vec<TagFields>) -> (built: Result<Catalog, ExtractError>)
        ensures
            match built {
                Ok(catalog) => {
                    &&& forall|i: int| 0 <= i < tags@.len() ==> #[trigger] tags@[i]@.missing() is None
                    &&& catalog@ == entries_of(tags@)
                },
                Err(ExtractError::MissingField { index, field }) => {
                    &&& index < tags@.len()
                    &&& tags@[index as int]@.missing() == Some(field)
                    &&& forall|j: int| 0 <= j < index ==> #[trigger] tags@[j]@.missing() is None
                },
            },
    {
        let mut entries: Vec<CatalogEntry> = Vec::new();
        let mut i: usize = 0;
        while i < tags.len()
            invariant
                i <= tags@.len(),
                entries@.len() == i,
                forall|j: int| 0 <= j < i ==> #[trigger] tags@[j]@.missing() is None,
                forall|j: int| 0 <= j < i ==> #[trigger] entries@[j]@ == tags@[j]@.entry(),
            decreases tags@.len() - i,
        {
            match CatalogEntry::from_tag(&tags[i]) {
                Ok(entry) => entries.push(entry),
                Err(field) => {
                    return Err(ExtractError::MissingField { index: i, field });
                },
            }
            i += 1;
        }
        let catalog = Catalog { entries };
        assert(catalog@ =~= entries_of(tags@));
        Ok(catalog)
    }

    pub fn len(&self) -> (n: usize)
        ensures
            n == self@.len(),
    {
        self.entries.len()
    }

    pub fn is_empty(&self) -> (empty: bool)
        ensures
            empty == (self@.len() == 0),
    {
        self.entries.len() == 0
    }

    /// The entry at position `index`, if the catalog is that long.
    pub fn get(&self, index: usize) -> (found: Option<&CatalogEntry>)
        ensures
            match found {
                Some(entry) => index < self@.len() && entry@ == self@[index as int],
                None => index >= self@.len(),
            },
    {
        if index < self.entries.len() {
            Some(&self.entries[index])
        } else {
            None
        }
    }
}

} // verus!
