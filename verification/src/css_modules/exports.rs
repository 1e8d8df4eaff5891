//! The export table of one source file: original names, compiled names, compositions.

use vstd::hash_map::StringHashMap;
use vstd::prelude::*;
use vstd::std_specs::cmp::PartialEqSpecImpl;
use vstd::string::*;

verus! {

/// A referenced name within a CSS module, e.g. via the `composes` property.
///
/// See [CssModuleExport](CssModuleExport).
#[derive(Debug)]
pub enum CssModuleReference {
    /// A local reference.
    Local {
        /// The local (compiled) name for the reference.
        name: String,
    },
    /// A global reference.
    Global {
        /// The referenced global name.
        name: String,
    },
    /// A reference to an export in a different file.
    Dependency {
        /// The name to reference within the dependency.
        name: String,
        /// The dependency specifier for the referenced file.
        specifier: String,
    },
}

/// The mathematical value of a [`CssModuleReference`].
pub enum CssModuleReferenceView {
    Local { name: Seq<char> },
    Global { name: Seq<char> },
    Dependency { name: Seq<char>, specifier: Seq<char> },
}

impl View for CssModuleReference {
    type V = CssModuleReferenceView;

    open spec fn view(&self) -> CssModuleReferenceView {
        match *self {
            CssModuleReference::Local { name } => CssModuleReferenceView::Local { name: name@ },
            CssModuleReference::Global { name } => CssModuleReferenceView::Global { name: name@ },
            CssModuleReference::Dependency { name, specifier } => CssModuleReferenceView::Dependency {
                name: name@,
                specifier: specifier@,
            },
        }
    }
}

impl PartialEq for CssModuleReference {
    /// Two references are equal when they are of the same kind and hold the same text.
    fn eq(&self, other: &Self) -> (equal: bool) {
        match self {
            CssModuleReference::Local { name } => match other {
                CssModuleReference::Local { name: other_name } => *name == *other_name,
                _ => false,
            },
            CssModuleReference::Global { name } => match other {
                CssModuleReference::Global { name: other_name } => *name == *other_name,
                _ => false,
            },
            CssModuleReference::Dependency { name, specifier } => match other {
                CssModuleReference::Dependency { name: other_name, specifier: other_specifier } => {
                    *name == *other_name && *specifier == *other_specifier
                },
                _ => false,
            },
        }
    }
}

impl PartialEqSpecImpl for CssModuleReference {
    open spec fn obeys_eq_spec() -> bool {
        true
    }

    open spec fn eq_spec(&self, other: &Self) -> bool {
        self@ == other@
    }
}

impl Clone for CssModuleReference {
    fn clone(&self) -> (copy: Self)
        ensures
            copy@ == self@,
    {
        match self {
            CssModuleReference::Local { name } => CssModuleReference::Local { name: name.clone() },
            CssModuleReference::Global { name } => CssModuleReference::Global { name: name.clone() },
            CssModuleReference::Dependency { name, specifier } => CssModuleReference::Dependency {
                name: name.clone(),
                specifier: specifier.clone(),
            },
        }
    }
}

/// The views of a sequence of references.
pub open spec fn reference_views(references: Seq<CssModuleReference>) -> Seq<
    CssModuleReferenceView,
> {
    Seq::new(references.len(), |i: int| references[i]@)
}

/// An exported value from a CSS module.
#[derive(Debug, PartialEq)]
pub struct CssModuleExport {
    /// The local (compiled) name for this export.
    pub name: String,
    /// Other names that are composed by this export.
    pub composes: Vec<CssModuleReference>,
    /// Whether the export is referenced in this file.
    pub is_referenced: bool,
}

/// The mathematical value of a [`CssModuleExport`].
pub struct CssModuleExportView {
    pub name: Seq<char>,
    pub composes: Seq<CssModuleReferenceView>,
    pub is_referenced: bool,
}

impl View for CssModuleExport {
    type V = CssModuleExportView;

    open spec fn view(&self) -> CssModuleExportView {
        CssModuleExportView {
            name: self.name@,
            composes: reference_views(self.composes@),
            is_referenced: self.is_referenced,
        }
    }
}

impl Clone for CssModuleExport {
    fn clone(&self) -> (copy: Self)
        ensures
            copy@ == self@,
    {
        let mut composes: Vec<CssModuleReference> = Vec::new();
        let mut i: usize = 0;
        while i < self.composes.len()
            invariant
                i <= self.composes.len(),
                composes.len() == i,
                forall|j: int| 0 <= j < i ==> composes@[j]@ == self.composes@[j]@,
            decreases self.composes.len() - i,
        {
            composes.push(self.composes[i].clone());
            i += 1;
        }
        assert(reference_views(composes@) =~= reference_views(self.composes@));
        CssModuleExport { name: self.name.clone(), composes, is_referenced: self.is_referenced }
    }
}

/// Whether no value occurs twice in `items`.
pub open spec fn no_duplicates<T>(items: Seq<T>) -> bool {
    forall|i: int, j: int| 0 <= i < j < items.len() ==> items[i] != items[j]
}

/// `items` with `item` appended, unless it already occurs.
pub open spec fn with_unique<T>(items: Seq<T>, item: T) -> Seq<T> {
    if items.contains(item) {
        items
    } else {
        items.push(item)
    }
}

/// A map of exported names to values: one entry for each original name that the source
/// declares or refers to.
pub struct CssModuleExports {
    table: StringHashMap<CssModuleExport>,
    names: Vec<String>,
}

impl View for CssModuleExports {
    type V = Map<Seq<char>, CssModuleExportView>;

    closed spec fn view(&self) -> Map<Seq<char>, CssModuleExportView> {
        Map::new(|name: Seq<char>| self.table@.contains_key(name), |name: Seq<char>| self.table@[name]@)
    }
}

impl CssModuleExports {
    /// The original names in the order in which their entries were made.
    pub closed spec fn names(&self) -> Seq<Seq<char>> {
        Seq::new(self.names@.len(), |i: int| self.names@[i]@)
    }

    /// What holds of every table: each name is listed once, the listed names are the
    /// names that have an entry, and no entry composes the same reference twice.
    pub closed spec fn well_formed(&self) -> bool {
        &&& no_duplicates(self.names())
        &&& forall|name: Seq<char>| self.table@.contains_key(name) <==> self.names().contains(name)
        &&& forall|name: Seq<char>| #[trigger]
            self.table@.contains_key(name) ==> no_duplicates(self.table@[name]@.composes)
    }

    /// Every table holds finitely many entries, as many as it lists names.
    pub proof fn lemma_names(&self)
        requires
            self.well_formed(),
        ensures
            no_duplicates(self.names()),
            forall|name: Seq<char>| self@.contains_key(name) <==> self.names().contains(name),
            forall|name: Seq<char>| #[trigger]
                self@.contains_key(name) ==> no_duplicates(self@[name].composes),
    {
    }

    /// The empty table.
    pub fn new() -> (exports: Self)
        ensures
            exports.well_formed(),
            exports@ == Map::<Seq<char>, CssModuleExportView>::empty(),
            exports.names() == Seq::<Seq<char>>::empty(),
    {
        let exports = CssModuleExports { table: StringHashMap::new(), names: Vec::new() };
        assert(exports@ =~= Map::<Seq<char>, CssModuleExportView>::empty());
        assert(exports.names() =~= Seq::<Seq<char>>::empty());
        exports
    }

    /// The number of entries.
    pub fn len(&self) -> (n: usize)
        requires
            self.well_formed(),
        ensures
            n == self.names().len(),
    {
        self.names.len()
    }

    /// Whether there is no entry.
    pub fn is_empty(&self) -> (empty: bool)
        requires
            self.well_formed(),
        ensures
            empty == (self.names().len() == 0),
    {
        self.names.len() == 0
    }

    /// Whether `name` has an entry.
    pub fn contains_key(&self, name: &str) -> (found: bool)
        ensures
            found == self@.contains_key(name@),
    {
        self.table.contains_key(name)
    }

    /// The entry of `name`, if it has one.
    pub fn get(&self, name: &str) -> (export: Option<&CssModuleExport>)
        ensures
            match export {
                Some(e) => self@.contains_key(name@) && e@ == self@[name@],
                None => !self@.contains_key(name@),
            },
    {
        self.table.get(name)
    }

    /// The original name of the `i`-th entry made.
    pub fn name_at(&self, i: usize) -> (name: &String)
        requires
            self.well_formed(),
            i < self.names().len(),
        ensures
            name@ == self.names()[i as int],
            self@.contains_key(name@),
    {
        assert(self.names().contains(self.names()[i as int]));
        &self.names[i]
    }

    /// Makes the entry of a name that has none yet.
    pub fn insert_new(&mut self, name: &str, export: CssModuleExport)
        requires
            old(self).well_formed(),
            !old(self)@.contains_key(name@),
            no_duplicates(export@.composes),
        ensures
            final(self).well_formed(),
            final(self)@ == old(self)@.insert(name@, export@),
            final(self).names() == old(self).names().push(name@),
    {
        self.table.insert(String::from_str(name), export);
        self.names.push(String::from_str(name));
        proof {
            assert(self.names() =~= old(self).names().push(name@));
            assert(self@ =~= old(self)@.insert(name@, export@));
            assert forall|key: Seq<char>| self.table@.contains_key(key) <==> self.names().contains(
                key,
            ) by {
                if key == name@ {
                    assert(self.names()[self.names().len() - 1] == key);
                } else {
                    if old(self).names().contains(key) {
                        let i = choose|i: int|
                            0 <= i < old(self).names().len() && old(self).names()[i] == key;
                        assert(self.names()[i] == key);
                    }
                    if self.names().contains(key) {
                        let i = choose|i: int| 0 <= i < self.names().len() && self.names()[i] == key;
                        assert(old(self).names()[i] == key);
                    }
                }
            }
            assert forall|i: int, j: int| 0 <= i < j < self.names().len() implies self.names()[i]
                != self.names()[j] by {
                if j == self.names().len() - 1 {
                    assert(old(self).names()[i] == self.names()[i]);
                    assert(old(self).names().contains(self.names()[i]));
                }
            }
        }
    }

    /// Replaces the entry of a name that has one.
    pub fn replace(&mut self, name: &str, export: CssModuleExport)
        requires
            old(self).well_formed(),
            old(self)@.contains_key(name@),
            no_duplicates(export@.composes),
        ensures
            final(self).well_formed(),
            final(self)@ == old(self)@.insert(name@, export@),
            final(self).names() == old(self).names(),
    {
        self.table.insert(String::from_str(name), export);
        proof {
            assert(self@ =~= old(self)@.insert(name@, export@));
        }
    }

    /// Marks the entry of `name` as referenced.
    pub fn mark_referenced(&mut self, name: &str)
        requires
            old(self).well_formed(),
            old(self)@.contains_key(name@),
        ensures
            final(self).well_formed(),
            final(self)@ == old(self)@.insert(name@, referenced_export(old(self)@[name@])),
            final(self).names() == old(self).names(),
    {
        let mut export = match self.table.get(name) {
            Some(current) => current.clone(),
            None => {
                return ;
            },
        };
        export.is_referenced = true;
        self.replace(name, export);
    }

    /// Adds `reference` to what the entry of `class` composes, unless an equal
    /// reference is there already.
    pub fn compose(&mut self, class: &str, reference: CssModuleReference)
        requires
            old(self).well_formed(),
            old(self)@.contains_key(class@),
        ensures
            final(self).well_formed(),
            final(self)@ == old(self)@.insert(
                class@,
                composing_export(old(self)@[class@], reference@),
            ),
            final(self).names() == old(self).names(),
    {
        let mut export = match self.table.get(class) {
            Some(current) => current.clone(),
            None => {
                return ;
            },
        };
        let ghost before = export@.composes;
        if !contains_reference(&export.composes, &reference) {
            export.composes.push(reference);
            assert(reference_views(export.composes@) =~= before.push(reference@));
        }
        proof {
            lemma_with_unique_keeps_distinct(before, reference@);
        }
        self.replace(class, export);
    }
}

/// An export as it is after a reference to its name was seen.
pub open spec fn referenced_export(export: CssModuleExportView) -> CssModuleExportView {
    CssModuleExportView { is_referenced: true, ..export }
}

/// An export as it is after `reference` was composed onto it.
pub open spec fn composing_export(
    export: CssModuleExportView,
    reference: CssModuleReferenceView,
) -> CssModuleExportView {
    CssModuleExportView { composes: with_unique(export.composes, reference), ..export }
}

/// Adding a value that is not there keeps a sequence free of duplicates.
pub proof fn lemma_with_unique_keeps_distinct<T>(items: Seq<T>, item: T)
    requires
        no_duplicates(items),
    ensures
        no_duplicates(with_unique(items, item)),
{
    if !items.contains(item) {
        let added = items.push(item);
        assert forall|i: int, j: int| 0 <= i < j < added.len() implies added[i] != added[j] by {
            if j == items.len() {
                assert(items.contains(items[i]));
            }
        }
    }
}

/// Whether a reference equal to `reference` occurs in `references`.
fn contains_reference(references: &Vec<CssModuleReference>, reference: &CssModuleReference) -> (found:
    bool)
    ensures
        found == reference_views(references@).contains(reference@),
{
    let mut i: usize = 0;
    while i < references.len()
        invariant
            i <= references.len(),
            forall|j: int| 0 <= j < i ==> reference_views(references@)[j] != reference@,
        decreases references.len() - i,
    {
        if references[i] == *reference {
            assert(reference_views(references@)[i as int] == reference@);
            return true;
        }
        i += 1;
    }
    false
}

/// A map of placeholders to the references that stand behind them. It is filled only
/// where a pattern asks for dashed identifiers to be looked up.
pub struct CssModuleReferences {
    table: StringHashMap<CssModuleReference>,
}

impl View for CssModuleReferences {
    type V = Map<Seq<char>, CssModuleReferenceView>;

    closed spec fn view(&self) -> Map<Seq<char>, CssModuleReferenceView> {
        Map::new(|name: Seq<char>| self.table@.contains_key(name), |name: Seq<char>| self.table@[name]@)
    }
}

impl CssModuleReferences {
    /// The empty map.
    pub fn new() -> (references: Self)
        ensures
            references@ == Map::<Seq<char>, CssModuleReferenceView>::empty(),
    {
        let references = CssModuleReferences { table: StringHashMap::new() };
        assert(references@ =~= Map::<Seq<char>, CssModuleReferenceView>::empty());
        references
    }

    /// The reference behind `name`, if there is one.
    pub fn get(&self, name: &str) -> (reference: Option<&CssModuleReference>)
        ensures
            match reference {
                Some(r) => self@.contains_key(name@) && r@ == self@[name@],
                None => !self@.contains_key(name@),
            },
    {
        self.table.get(name)
    }
}

} // verus!
