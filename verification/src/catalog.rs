//! The item catalog: for each tradable item, in a fixed order, the patterns
//! that recognise a mention of it.

use crate::pattern::{compile, is_match, pattern_compiles, pattern_matches, Pattern};
use vstd::prelude::*;

verus! {

/// One item of the catalog as it is written down: its display name and the
/// text of its patterns, in the order in which they are tried.
#[derive(Debug)]
pub struct EntrySource {
    pub name: String,
    pub patterns: Vec<String>,
}

/// One item of the catalog, with its patterns compiled.
#[derive(Debug)]
pub struct CatalogEntry {
    name: String,
    patterns: Vec<Pattern>,
}

/// The items, in the order in which they are tried.
#[derive(Debug)]
pub struct Catalog {
    entries: Vec<CatalogEntry>,
}

/// One item of the catalog as mathematical values.
pub struct Item {
    pub name: Seq<char>,
    pub patterns: Seq<Seq<char>>,
}

impl View for EntrySource {
    type V = Item;

    open spec fn view(&self) -> Item {
        Item { name: self.name@, patterns: self.patterns@.map_values(|p: String| p@) }
    }
}

impl View for CatalogEntry {
    type V = Item;

    closed spec fn view(&self) -> Item {
        Item { name: self.name@, patterns: self.patterns@.map_values(|p: Pattern| p@) }
    }
}

impl View for Catalog {
    type V = Seq<Item>;

    closed spec fn view(&self) -> Seq<Item> {
        self.entries@.map_values(|e: CatalogEntry| e@)
    }
}

/// The items of a table as mathematical values.
pub open spec fn table_items(table: Seq<EntrySource>) -> Seq<Item> {
    table.map_values(|e: EntrySource| e@)
}

/// A pattern of the catalog that is no regular expression.
#[derive(Debug)]
pub struct PatternError {
    /// The position of the item in the table.
    pub entry: usize,
    /// The position of the pattern among those of the item.
    pub pattern: usize,
    /// What the compiler of regular expressions said.
    pub cause: regex::Error,
}

/// Whether one of the patterns matches somewhere in `text`.
pub open spec fn any_matches(patterns: Seq<Seq<char>>, text: Seq<char>) -> bool {
    exists|j: int| 0 <= j < patterns.len() && pattern_matches(#[trigger] patterns[j], text)
}

/// Whether item `i` is the first of `items` with a pattern that matches
/// `text`.
pub open spec fn is_first_match(items: Seq<Item>, text: Seq<char>, i: int) -> bool {
    &&& 0 <= i < items.len()
    &&& any_matches(items[i].patterns, text)
    &&& forall|k: int| 0 <= k < i ==> !any_matches((#[trigger] items[k]).patterns, text)
}

/// The position of the first item with a pattern that matches `text`.
pub open spec fn first_match(items: Seq<Item>, text: Seq<char>) -> Option<int> {
    if exists|i: int| is_first_match(items, text, i) {
        Some(choose|i: int| is_first_match(items, text, i))
    } else {
        None
    }
}

/// At most one item is the first to match.
pub proof fn first_match_is_unique(items: Seq<Item>, text: Seq<char>, i: int, j: int)
    requires
        is_first_match(items, text, i),
        is_first_match(items, text, j),
    ensures
        i == j,
{
}

/// Whether every pattern text of `item` compiles.
pub open spec fn item_compiles(item: Item) -> bool {
    forall|j: int| 0 <= j < item.patterns.len() ==> pattern_compiles(#[trigger] item.patterns[j])
}

/// Whether `pattern` of item `entry` is the first pattern text of `items`
/// that does not compile.
pub open spec fn is_first_failure(items: Seq<Item>, entry: int, pattern: int) -> bool {
    &&& 0 <= entry < items.len()
    &&& 0 <= pattern < items[entry].patterns.len()
    &&& !pattern_compiles(items[entry].patterns[pattern])
    &&& forall|j: int| 0 <= j < pattern ==> pattern_compiles(#[trigger] items[entry].patterns[j])
    &&& forall|k: int| 0 <= k < entry ==> item_compiles(#[trigger] items[k])
}

/// Whether a pattern of `patterns` matches somewhere in `text`. The patterns
/// are tried in order, up to the first that matches.
fn matches_any(patterns: &Vec<Pattern>, text: &str) -> (found: bool)
    ensures
        found == any_matches(patterns@.map_values(|p: Pattern| p@), text@),
{
    let ghost sources = patterns@.map_values(|p: Pattern| p@);
    let mut j: usize = 0;
    while j < patterns.len()
        invariant
            j <= patterns.len(),
            sources == patterns@.map_values(|p: Pattern| p@),
            forall|k: int| 0 <= k < j ==> !pattern_matches(#[trigger] sources[k], text@),
        decreases patterns.len() - j,
    {
        if is_match(&patterns[j], text) {
            assert(pattern_matches(sources[j as int], text@));
            return true;
        }
        j += 1;
    }
    false
}

impl CatalogEntry {
    /// The display name of the item.
    pub fn name(&self) -> (name: &String)
        ensures
            name@ == self@.name,
    {
        &self.name
    }

    /// The number of patterns of the item.
    pub fn pattern_count(&self) -> (n: usize)
        ensures
            n == self@.patterns.len(),
    {
        self.patterns.len()
    }

    /// The text of pattern `j` of the item.
    pub fn pattern_source(&self, j: usize) -> (source: &String)
        requires
            j < self@.patterns.len(),
        ensures
            source@ == self@.patterns[j as int],
    {
        self.patterns[j].source()
    }

    /// Whether a pattern of the item matches somewhere in `text`.
    pub fn mentions(&self, text: &str) -> (found: bool)
        ensures
            found == any_matches(self@.patterns, text@),
    {
        matches_any(&self.patterns, text)
    }
}

impl Catalog {
    /// Compiles a table of items. It fails at the first pattern text, in
    /// table order, that is no regular expression.
    pub fn compile(table: &Vec<EntrySource>) -> (r: Result<Catalog, PatternError>)
        ensures
            r is Ok <==> forall|i: int|
                0 <= i < table@.len() ==> item_compiles(#[trigger] table_items(table@)[i]),
            r matches Ok(catalog) ==> catalog@ == table_items(table@),
            r matches Err(e) ==> is_first_failure(
                table_items(table@),
                e.entry as int,
                e.pattern as int,
            ),
    {
        let ghost items = table_items(table@);
        let mut entries: Vec<CatalogEntry> = Vec::new();
        let mut i: usize = 0;
        while i < table.len()
            invariant
                i <= table.len(),
                items == table_items(table@),
                entries@.len() == i,
                forall|k: int| 0 <= k < i ==> (#[trigger] entries@[k])@ == items[k],
                forall|k: int| 0 <= k < i ==> item_compiles(#[trigger] items[k]),
            decreases table.len() - i,
        {
            let source = &table[i];
            let mut patterns: Vec<Pattern> = Vec::new();
            let mut j: usize = 0;
            while j < source.patterns.len()
                invariant
                    i < table.len(),
                    items == table_items(table@),
                    source == table@[i as int],
                    forall|k: int| 0 <= k < i ==> item_compiles(#[trigger] items[k]),
                    j <= source.patterns.len(),
                    patterns@.len() == j,
                    forall|k: int| 0 <= k < j ==> (#[trigger] patterns@[k])@ == items[i as int].patterns[k],
                    forall|k: int|
                        0 <= k < j ==> pattern_compiles(#[trigger] items[i as int].patterns[k]),
                decreases source.patterns.len() - j,
            {
                assert(items[i as int].patterns[j as int] == source.patterns@[j as int]@);
                match compile(source.patterns[j].as_str()) {
                    Ok(pattern) => {
                        patterns.push(pattern);
                    },
                    Err(cause) => {
                        return Err(PatternError { entry: i, pattern: j, cause });
                    },
                }
                j += 1;
            }
            let entry = CatalogEntry { name: source.name.clone(), patterns };
            assert(entry@ =~= items[i as int]) by {
                assert(entry@.patterns =~= items[i as int].patterns);
            }
            entries.push(entry);
            i += 1;
        }
        let catalog = Catalog { entries };
        assert(catalog@ =~= items);
        Ok(catalog)
    }

    /// The number of items.
    pub fn len(&self) -> (n: usize)
        ensures
            n == self@.len(),
    {
        self.entries.len()
    }

    /// Item `i` of the catalog.
    pub fn entry(&self, i: usize) -> (entry: &CatalogEntry)
        requires
            i < self@.len(),
        ensures
            entry@ == self@[i as int],
    {
        &self.entries[i]
    }

    /// The position of the first item with a pattern that matches somewhere
    /// in `text`: items are tried in order, and so are the patterns of each.
    pub fn find_item(&self, text: &str) -> (found: Option<usize>)
        ensures
            found is Some <==> first_match(self@, text@) is Some,
            found matches Some(i) ==> first_match(self@, text@) == Some(i as int),
    {
        let mut i: usize = 0;
        while i < self.entries.len()
            invariant
                i <= self.entries.len(),
                forall|k: int| 0 <= k < i ==> !any_matches((#[trigger] self@[k]).patterns, text@),
            decreases self.entries.len() - i,
        {
            if self.entries[i].mentions(text) {
                assert(self@[i as int] == self.entries@[i as int]@);
                assert(is_first_match(self@, text@, i as int));
                return Some(i);
            }
            assert(self@[i as int] == self.entries@[i as int]@);
            i += 1;
        }
        None
    }
}

} // verus!
