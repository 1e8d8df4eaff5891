//! What a minification pass knows while it runs.

use crate::targets::Browsers;
use vstd::hash_map::StringHashMap;
use vstd::hash_set::StringHashSet;
use vstd::prelude::*;
use vstd::string::*;

verus! {

/// A set of symbols: class names, ids and the like.
pub struct SymbolSet {
    symbols: StringHashSet,
}

impl View for SymbolSet {
    type V = Set<Seq<char>>;

    closed spec fn view(&self) -> Set<Seq<char>> {
        self.symbols@
    }
}

impl SymbolSet {
    /// The empty set.
    pub fn new() -> (set: Self)
        ensures
            set@ == Set::<Seq<char>>::empty(),
    {
        SymbolSet { symbols: StringHashSet::new() }
    }

    /// Adds `symbol` to the set.
    pub fn insert(&mut self, symbol: &str)
        ensures
            final(self)@ == old(self)@.insert(symbol@),
    {
        let _ = self.symbols.insert(String::from_str(symbol));
    }

    /// Whether `symbol` is in the set.
    pub fn contains(&self, symbol: &str) -> (found: bool)
        ensures
            found == self@.contains(symbol@),
    {
        self.symbols.contains(symbol)
    }

    /// Whether the set holds nothing.
    pub fn is_empty(&self) -> (empty: bool)
        ensures
            empty == self@.is_empty(),
    {
        self.symbols.is_empty()
    }
}

impl Default for SymbolSet {
    fn default() -> (set: Self)
        ensures
            set@ == Set::<Seq<char>>::empty(),
    {
        SymbolSet::new()
    }
}

/// The custom media queries of a style sheet, by name: the text that each stands for.
pub struct CustomMediaLookup {
    queries: StringHashMap<String>,
}

impl View for CustomMediaLookup {
    type V = Map<Seq<char>, Seq<char>>;

    closed spec fn view(&self) -> Map<Seq<char>, Seq<char>> {
        Map::new(
            |name: Seq<char>| self.queries@.contains_key(name),
            |name: Seq<char>| self.queries@[name]@,
        )
    }
}

impl CustomMediaLookup {
    /// The empty table.
    pub fn new() -> (lookup: Self)
        ensures
            lookup@ == Map::<Seq<char>, Seq<char>>::empty(),
    {
        let lookup = CustomMediaLookup { queries: StringHashMap::new() };
        assert(lookup@ =~= Map::<Seq<char>, Seq<char>>::empty());
        lookup
    }

    /// Defines `name` as `query`. A definition made before under the same name is
    /// replaced.
    pub fn insert(&mut self, name: &str, query: &str)
        ensures
            final(self)@ == old(self)@.insert(name@, query@),
    {
        self.queries.insert(String::from_str(name), String::from_str(query));
        assert(self@ =~= old(self)@.insert(name@, query@));
    }

    /// The query that `name` stands for, if it is defined.
    pub fn get(&self, name: &str) -> (query: Option<&String>)
        ensures
            match query {
                Some(text) => self@.contains_key(name@) && text@ == self@[name@],
                None => !self@.contains_key(name@),
            },
    {
        self.queries.get(name)
    }
}

/// What a minification pass over rules works with.
pub struct MinifyContext<'a> {
    /// The browsers to compile for, where they are known.
    pub targets: &'a Option<Browsers>,
    /// The symbols known to be unused: rules for them are removed.
    pub unused_symbols: &'a SymbolSet,
    /// The custom media queries, where they are to be resolved.
    pub custom_media: Option<CustomMediaLookup>,
    /// Whether the style sheet is a CSS module.
    pub css_modules: bool,
}

/// The part of a [`MinifyContext`] that decides what a pass does.
pub struct MinifyView {
    pub unused: Set<Seq<char>>,
    pub custom_media: Option<Map<Seq<char>, Seq<char>>>,
}

impl<'a> View for MinifyContext<'a> {
    type V = MinifyView;

    open spec fn view(&self) -> MinifyView {
        MinifyView {
            unused: self.unused_symbols@,
            custom_media: match self.custom_media {
                Some(lookup) => Some(lookup@),
                None => None,
            },
        }
    }
}

} // verus!
