//! The scoping engine: the working state of one print pass over one source.

use crate::css_modules::exports::{
    composing_export, no_duplicates, referenced_export, with_unique, CssModuleExport,
    CssModuleExportView, CssModuleExports, CssModuleReference, CssModuleReferenceView,
};
use crate::css_modules::pattern::{compiled_name, Config, SegmentView};
use crate::error::PrinterErrorKind;
use crate::properties::{Composes, ComposesFrom};
use crate::selector::{class_of, Selector, SelectorList};
use vstd::prelude::*;
use vstd::string::*;

verus! {

/// The mathematical value of an export table.
pub type ExportMap = Map<Seq<char>, CssModuleExportView>;

/// How the names of one source are compiled: the pattern, the hash of the source, and
/// the base name of the source.
pub struct Naming {
    pub pattern: Seq<SegmentView>,
    pub hash: Seq<char>,
    pub name: Seq<char>,
}

impl Naming {
    /// The compiled name of `local`.
    pub open spec fn compile(self, local: Seq<char>) -> Seq<char> {
        compiled_name(self.pattern, self.hash, local, self.name)
    }
}

/// The entry made for a name when it is first met.
pub open spec fn fresh_export(
    naming: Naming,
    local: Seq<char>,
    is_referenced: bool,
) -> CssModuleExportView {
    CssModuleExportView {
        name: naming.compile(local),
        composes: Seq::empty(),
        is_referenced,
    }
}

/// The table after `exported` was declared with the local name `local`: a name that has
/// an entry keeps it untouched, another gets a fresh entry that is not referenced.
pub open spec fn with_local(
    exports: ExportMap,
    naming: Naming,
    exported: Seq<char>,
    local: Seq<char>,
) -> ExportMap {
    if exports.contains_key(exported) {
        exports
    } else {
        exports.insert(exported, fresh_export(naming, local, false))
    }
}

/// The table after `name` was referred to: its entry is marked as referenced, and made
/// first where there was none.
pub open spec fn with_reference(
    exports: ExportMap,
    naming: Naming,
    name: Seq<char>,
) -> ExportMap {
    if exports.contains_key(name) {
        exports.insert(name, referenced_export(exports[name]))
    } else {
        exports.insert(name, fresh_export(naming, name, true))
    }
}

/// The reference that a composed name stands for: local and compiled where the
/// declaration names no source, global and as written where it says so, and a
/// dependency on another file otherwise.
pub open spec fn composed_reference(
    naming: Naming,
    from: Option<ComposesFrom>,
    name: Seq<char>,
) -> CssModuleReferenceView {
    match from {
        None => CssModuleReferenceView::Local { name: naming.compile(name) },
        Some(ComposesFrom::Global) => CssModuleReferenceView::Global { name },
        Some(ComposesFrom::File(file)) => CssModuleReferenceView::Dependency {
            name,
            specifier: file@,
        },
    }
}

/// The references of a `composes` declaration, one for each name, in order.
pub open spec fn composed_references(
    naming: Naming,
    composes: Composes,
) -> Seq<CssModuleReferenceView> {
    Seq::new(
        composes.names@.len(),
        |j: int| composed_reference(naming, composes.from, composes.names@[j].0@),
    )
}

/// An export after each of `references` was composed onto it, in order.
pub open spec fn composing_all(
    export: CssModuleExportView,
    references: Seq<CssModuleReferenceView>,
) -> CssModuleExportView
    decreases references.len(),
{
    if references.len() == 0 {
        export
    } else {
        composing_export(composing_all(export, references.drop_last()), references.last())
    }
}

/// The table after `references` were composed onto the entry of `class`.
/// Nothing is touched where there is nothing to compose.
pub open spec fn with_composes(
    exports: ExportMap,
    class: Seq<char>,
    references: Seq<CssModuleReferenceView>,
) -> ExportMap {
    if references.len() == 0 {
        exports
    } else {
        exports.insert(class, composing_all(exports[class], references))
    }
}

/// The table after `references` were composed onto the entry of each of `classes`,
/// one class after the other.
pub open spec fn with_composes_on_all(
    exports: ExportMap,
    classes: Seq<Seq<char>>,
    references: Seq<CssModuleReferenceView>,
) -> ExportMap
    decreases classes.len(),
{
    if classes.len() == 0 {
        exports
    } else {
        with_composes(
            with_composes_on_all(exports, classes.drop_last(), references),
            classes.last(),
            references,
        )
    }
}

/// The number of selectors at the start of `selectors` that are single class selectors.
pub open spec fn leading_classes(selectors: Seq<Selector>) -> nat
    decreases selectors.len(),
{
    if selectors.len() == 0 || class_of(selectors[0]) is None {
        0
    } else {
        1 + leading_classes(selectors.drop_first())
    }
}

/// The classes of the first `n` selectors.
pub open spec fn classes_of(selectors: Seq<Selector>, n: nat) -> Seq<Seq<char>> {
    Seq::new(n, |i: int| class_of(selectors[i])->0)
}

/// `leading_classes` is the position of the first selector that is no single class
/// selector, or the length where there is none.
pub proof fn lemma_leading_classes(selectors: Seq<Selector>, k: nat)
    requires
        k <= selectors.len(),
        forall|i: int| 0 <= i < k ==> class_of(selectors[i]) is Some,
        k == selectors.len() || class_of(selectors[k as int]) is None,
    ensures
        leading_classes(selectors) == k,
    decreases k,
{
    if k > 0 {
        lemma_leading_classes(selectors.drop_first(), (k - 1) as nat);
    }
}

/// The working state of CSS modules for one source: the configuration, the base name
/// and the hash of the source, and the export table that the pass fills. The table is owned for the length
/// of the pass and handed back by [`CssModule::into_exports`].
pub struct CssModule<'a, 'b> {
    /// The configuration of the session.
    pub config: &'a Config<'b>,
    /// The base name of the source, which the `Name` segment of the pattern stands for.
    pub name: String,
    /// The hash of the source.
    pub hash: String,
    /// The export table of the source.
    pub exports: CssModuleExports,
}

impl<'a, 'b> CssModule<'a, 'b> {
    /// How the names of the source are compiled.
    pub open spec fn naming(&self) -> Naming {
        Naming { pattern: self.config.pattern@, hash: self.hash@, name: self.name@ }
    }

    /// The state at the start of a pass: nothing exported yet.
    pub fn new(config: &'a Config<'b>, name: String, hash: String) -> (module: Self)
        ensures
            module.config == config,
            module.name == name,
            module.hash == hash,
            module.exports.well_formed(),
            module.exports@ == ExportMap::empty(),
    {
        CssModule { config, name, hash, exports: CssModuleExports::new() }
    }

    /// Hands the export table to the caller at the end of the pass.
    pub fn into_exports(self) -> (exports: CssModuleExports)
        ensures
            exports == self.exports,
    {
        self.exports
    }

    /// Registers a name that the source declares. The first declaration wins: a name
    /// that has an entry already, declared or only referred to, keeps it as it is.
    pub fn add_local(&mut self, exported: &str, local: &str)
        requires
            old(self).exports.well_formed(),
        ensures
            final(self).config == old(self).config,
            final(self).name == old(self).name,
            final(self).hash == old(self).hash,
            final(self).exports.well_formed(),
            final(self).exports@ == with_local(
                old(self).exports@,
                old(self).naming(),
                exported@,
                local@,
            ),
    {
        if !self.exports.contains_key(exported) {
            let name = self.config.pattern.write_to_string(
                self.hash.as_str(),
                local,
                self.name.as_str(),
            );
            let export = CssModuleExport { name, composes: Vec::new(), is_referenced: false };
            assert(export@.composes =~= Seq::<CssModuleReferenceView>::empty());
            self.exports.insert_new(exported, export);
        }
    }

    /// Registers a reference to a name. The name may be declared only later: where it has
    /// no entry yet, one is made as [`CssModule::add_local`] would make it, already
    /// marked as referenced.
    pub fn reference(&mut self, name: &str)
        requires
            old(self).exports.well_formed(),
        ensures
            final(self).config == old(self).config,
            final(self).name == old(self).name,
            final(self).hash == old(self).hash,
            final(self).exports.well_formed(),
            final(self).exports@ == with_reference(
                old(self).exports@,
                old(self).naming(),
                name@,
            ),
    {
        if self.exports.contains_key(name) {
            self.exports.mark_referenced(name);
        } else {
            let compiled = self.config.pattern.write_to_string(
                self.hash.as_str(),
                name,
                self.name.as_str(),
            );
            let export = CssModuleExport {
                name: compiled,
                composes: Vec::new(),
                is_referenced: true,
            };
            assert(export@.composes =~= Seq::<CssModuleReferenceView>::empty());
            self.exports.insert_new(name, export);
        }
    }

    /// Composes the names of one `composes` declaration onto the entry of `class`.
    fn compose_names(&mut self, class: &str, composes: &Composes)
        requires
            old(self).exports.well_formed(),
            composes.names@.len() > 0 ==> old(self).exports@.contains_key(class@),
        ensures
            final(self).config == old(self).config,
            final(self).name == old(self).name,
            final(self).hash == old(self).hash,
            final(self).exports.well_formed(),
            final(self).exports@.dom() == old(self).exports@.dom(),
            final(self).exports@ == with_composes(
                old(self).exports@,
                class@,
                composed_references(old(self).naming(), *composes),
            ),
    {
        let ghost references = composed_references(self.naming(), *composes);
        let ghost start = self.exports@;
        let n = composes.names.len();
        let mut j: usize = 0;
        while j < n
            invariant
                n == composes.names@.len(),
                j <= n,
                self.config == old(self).config,
                self.name == old(self).name,
                self.hash == old(self).hash,
                self.exports.well_formed(),
                start == old(self).exports@,
                n > 0 ==> start.contains_key(class@),
                references == composed_references(self.naming(), *composes),
                self.exports@.dom() == start.dom(),
                self.exports@ == with_composes(start, class@, references.take(j as int)),
            decreases n - j,
        {
            let name = &composes.names[j].0;
            let reference = match &composes.from {
                None => CssModuleReference::Local {
                    name: self.config.pattern.write_to_string(
                        self.hash.as_str(),
                        name.as_str(),
                        self.name.as_str(),
                    ),
                },
                Some(ComposesFrom::Global) => CssModuleReference::Global { name: name.clone() },
                Some(ComposesFrom::File(file)) => CssModuleReference::Dependency {
                    name: name.clone(),
                    specifier: file.clone(),
                },
            };
            assert(reference@ == references[j as int]);
            let ghost before = self.exports@;
            assert(before.contains_key(class@)) by {
                assert(before.dom().contains(class@));
            }
            self.exports.compose(class, reference);
            proof {
                let done = references.take(j as int);
                let next = references.take(j + 1);
                assert(next.drop_last() =~= done);
                assert(next.last() == references[j as int]);
                assert(self.exports@ =~= with_composes(start, class@, next));
                assert(self.exports@.dom() =~= start.dom());
            }
            j += 1;
        }
        assert(references.take(n as int) =~= references);
    }

    /// Resolves a `composes` declaration of a rule with the selectors `selectors`.
    ///
    /// The selectors are taken in order. For one that is a single class selector, each
    /// composed name becomes a reference, which is added to what the entry of the class
    /// composes unless an equal reference is there already. The first selector of another
    /// shape ends the call with `InvalidComposesSelector`; what was composed for the
    /// selectors before it stays.
    pub fn handle_composes(&mut self, selectors: &SelectorList, composes: &Composes) -> (result:
        Result<(), PrinterErrorKind>)
        requires
            old(self).exports.well_formed(),
            composes.names@.len() > 0 ==> forall|i: int|
                0 <= i < leading_classes(selectors.0@) ==> old(self).exports@.contains_key(
                    #[trigger] class_of(selectors.0@[i])->0,
                ),
        ensures
            final(self).config == old(self).config,
            final(self).name == old(self).name,
            final(self).hash == old(self).hash,
            final(self).exports.well_formed(),
            result is Ok <==> leading_classes(selectors.0@) == selectors.0@.len(),
            result matches Err(kind) ==> kind == PrinterErrorKind::InvalidComposesSelector,
            final(self).exports@.dom() == old(self).exports@.dom(),
            forall|key: Seq<char>| #[trigger]
                final(self).exports@.contains_key(key) ==> no_duplicates(
                    final(self).exports@[key].composes,
                ),
            final(self).exports@ == with_composes_on_all(
                old(self).exports@,
                classes_of(selectors.0@, leading_classes(selectors.0@)),
                composed_references(old(self).naming(), *composes),
            ),
    {
        let ghost references = composed_references(self.naming(), *composes);
        let ghost start = self.exports@;
        let n = selectors.0.len();
        let mut i: usize = 0;
        assert(classes_of(selectors.0@, 0) =~= Seq::<Seq<char>>::empty());
        while i < n
            invariant
                n == selectors.0@.len(),
                i <= n,
                self.config == old(self).config,
                self.name == old(self).name,
                self.hash == old(self).hash,
                self.exports.well_formed(),
                start == old(self).exports@,
                references == composed_references(self.naming(), *composes),
                forall|k: int| 0 <= k < i ==> class_of(selectors.0@[k]) is Some,
                composes.names@.len() > 0 ==> forall|k: int|
                    0 <= k < leading_classes(selectors.0@) ==> start.contains_key(
                        #[trigger] class_of(selectors.0@[k])->0,
                    ),
                self.exports@.dom() == start.dom(),
                self.exports@ == with_composes_on_all(
                    start,
                    classes_of(selectors.0@, i as nat),
                    references,
                ),
            decreases n - i,
        {
            match selectors.0[i].class_name() {
                Some(class) => {
                    proof {
                        lemma_leading_classes_at_least(selectors.0@, (i + 1) as nat);
                        assert(start.contains_key(class_of(selectors.0@[i as int])->0)
                            || composes.names@.len() == 0);
                        if composes.names@.len() > 0 {
                            assert(self.exports@.dom().contains(class@));
                        }
                    }
                    self.compose_names(class.as_str(), composes);
                    proof {
                        let done = classes_of(selectors.0@, i as nat);
                        let next = classes_of(selectors.0@, (i + 1) as nat);
                        assert(next.drop_last() =~= done);
                        assert(next.last() == class@);
                    }
                },
                None => {
                    proof {
                        lemma_leading_classes(selectors.0@, i as nat);
                        self.exports.lemma_names();
                    }
                    return Err(PrinterErrorKind::InvalidComposesSelector);
                },
            }
            i += 1;
        }
        proof {
            lemma_leading_classes(selectors.0@, n as nat);
            self.exports.lemma_names();
        }
        Ok(())
    }
}

/// Each of the leading selectors is a single class selector.
pub proof fn lemma_leading_are_classes(selectors: Seq<Selector>, i: int)
    requires
        0 <= i < leading_classes(selectors),
    ensures
        i < selectors.len(),
        class_of(selectors[i]) is Some,
    decreases selectors.len(),
{
    if selectors.len() > 0 && class_of(selectors[0]) is Some && i > 0 {
        lemma_leading_are_classes(selectors.drop_first(), i - 1);
    }
}

/// Where the first `k` selectors are single class selectors, at least `k` lead.
pub proof fn lemma_leading_classes_at_least(selectors: Seq<Selector>, k: nat)
    requires
        k <= selectors.len(),
        forall|i: int| 0 <= i < k ==> class_of(selectors[i]) is Some,
    ensures
        leading_classes(selectors) >= k,
    decreases k,
{
    if k > 0 {
        lemma_leading_classes_at_least(selectors.drop_first(), (k - 1) as nat);
    }
}

/// Declaring a name twice is declaring it once: the second declaration changes nothing,
/// whatever local name it gives, so the entry and its `is_referenced` stay as they were
/// after the first.
pub proof fn lemma_add_local_twice(
    exports: ExportMap,
    naming: Naming,
    exported: Seq<char>,
    local: Seq<char>,
    again: Seq<char>,
)
    ensures
        with_local(with_local(exports, naming, exported, local), naming, exported, again)
            == with_local(exports, naming, exported, local),
        with_local(exports, naming, exported, local).contains_key(exported),
        with_local(exports, naming, exported, local).dom() == exports.dom().insert(exported),
{
    assert(with_local(exports, naming, exported, local).dom() =~= exports.dom().insert(
        exported,
    ));
}

/// A reference to a name that is declared only later still gives one entry for the name,
/// marked as referenced, with the compiled name that the declaration would have given,
/// and the later declaration does not touch it.
pub proof fn lemma_reference_before_declaration(
    exports: ExportMap,
    naming: Naming,
    name: Seq<char>,
    local: Seq<char>,
)
    requires
        !exports.contains_key(name),
    ensures
        with_reference(exports, naming, name).dom() == exports.dom().insert(name),
        with_reference(exports, naming, name)[name] == fresh_export(
            naming,
            name,
            true,
        ),
        with_reference(exports, naming, name)[name].is_referenced,
        with_local(with_reference(exports, naming, name), naming, name, local)
            == with_reference(exports, naming, name),
{
    assert(with_reference(exports, naming, name).dom() =~= exports.dom().insert(name));
}

/// A reference marks the entry of its name, whether the name was declared before or not.
pub proof fn lemma_reference_marks(
    exports: ExportMap,
    naming: Naming,
    name: Seq<char>,
)
    ensures
        with_reference(exports, naming, name).contains_key(name),
        with_reference(exports, naming, name)[name].is_referenced,
        with_reference(exports, naming, name).dom() == exports.dom().insert(name),
{
    assert(with_reference(exports, naming, name).dom() =~= exports.dom().insert(name));
}

/// Composing references onto classes whose entries compose all of them already changes
/// nothing.
pub proof fn lemma_composes_on_all_present(
    exports: ExportMap,
    classes: Seq<Seq<char>>,
    references: Seq<CssModuleReferenceView>,
)
    requires
        forall|k: int|
            0 <= k < classes.len() ==> exports.contains_key(#[trigger] classes[k]) && forall|j: int|
                0 <= j < references.len() ==> exports[classes[k]].composes.contains(
                    #[trigger] references[j],
                ),
    ensures
        with_composes_on_all(exports, classes, references) == exports,
    decreases classes.len(),
{
    if classes.len() > 0 {
        let front = classes.drop_last();
        assert forall|k: int| 0 <= k < front.len() implies exports.contains_key(
            #[trigger] front[k],
        ) && forall|j: int|
            0 <= j < references.len() ==> exports[front[k]].composes.contains(
                #[trigger] references[j],
            ) by {
            assert(front[k] == classes[k]);
        }
        lemma_composes_on_all_present(exports, front, references);
        let last = classes[classes.len() - 1];
        assert(exports.contains_key(last));
        lemma_composing_present(exports[last], references);
        assert(with_composes(exports, last, references) =~= exports);
    }
}

/// A selector list that holds a selector of another shape than a single class selector
/// is rejected, and the table stays as it was unless a class selector stands before
/// that selector whose entry does not yet compose all of the references: with no class
/// selector in front, or with nothing to compose, no entry is touched.
pub proof fn lemma_rejected_composes_touches_nothing(
    exports: ExportMap,
    selectors: Seq<Selector>,
    references: Seq<CssModuleReferenceView>,
    invalid: int,
)
    requires
        0 <= invalid < selectors.len(),
        class_of(selectors[invalid]) is None,
        forall|k: int|
            0 <= k < leading_classes(selectors) ==> exports.contains_key(
                #[trigger] classes_of(selectors, leading_classes(selectors))[k],
            ) && forall|j: int|
                0 <= j < references.len() ==> exports[classes_of(
                    selectors,
                    leading_classes(selectors),
                )[k]].composes.contains(#[trigger] references[j]),
    ensures
        leading_classes(selectors) != selectors.len(),
        class_of(selectors[0]) is None ==> leading_classes(selectors) == 0,
        with_composes_on_all(
            exports,
            classes_of(selectors, leading_classes(selectors)),
            references,
        ) == exports,
{
    if leading_classes(selectors) > invalid {
        lemma_leading_are_classes(selectors, invalid);
    }
    lemma_composes_on_all_present(
        exports,
        classes_of(selectors, leading_classes(selectors)),
        references,
    );
}

/// A selector of two components, such as two classes, is no single class selector.
pub proof fn lemma_compound_is_no_class(selector: Selector)
    requires
        selector.components@.len() != 1,
    ensures
        class_of(selector) is None,
{
}

/// Composing keeps what was composed before and holds each of the new references.
pub proof fn lemma_composing_all_holds(
    export: CssModuleExportView,
    references: Seq<CssModuleReferenceView>,
)
    ensures
        forall|r: CssModuleReferenceView|
            export.composes.contains(r) ==> #[trigger] composing_all(export, references).composes.contains(r),
        forall|i: int|
            0 <= i < references.len() ==> composing_all(export, references).composes.contains(
                #[trigger] references[i],
            ),
        composing_all(export, references).name == export.name,
        composing_all(export, references).is_referenced == export.is_referenced,
        no_duplicates(export.composes) ==> no_duplicates(composing_all(export, references).composes),
    decreases references.len(),
{
    if references.len() > 0 {
        let front = references.drop_last();
        let last = references.last();
        lemma_composing_all_holds(export, front);
        let before = composing_all(export, front).composes;
        let after = with_unique(before, last);
        assert(after == composing_all(export, references).composes);
        lemma_with_unique_holds(before, last);
        assert forall|i: int| 0 <= i < references.len() implies after.contains(
            #[trigger] references[i],
        ) by {
            if i < front.len() {
                assert(front[i] == references[i]);
                assert(before.contains(front[i]));
            }
        }
        if no_duplicates(export.composes) {
            crate::css_modules::exports::lemma_with_unique_keeps_distinct(before, last);
        }
    }
}

/// `with_unique` keeps what the sequence held and holds the value.
pub proof fn lemma_with_unique_holds<T>(items: Seq<T>, item: T)
    ensures
        with_unique(items, item).contains(item),
        forall|x: T| items.contains(x) ==> #[trigger] with_unique(items, item).contains(x),
{
    if !items.contains(item) {
        let added = items.push(item);
        assert(added[items.len() as int] == item);
        assert forall|x: T| items.contains(x) implies #[trigger] added.contains(x) by {
            let i = choose|i: int| 0 <= i < items.len() && items[i] == x;
            assert(added[i] == x);
        }
    }
}

/// Composing references that are all there already changes nothing.
pub proof fn lemma_composing_present(
    export: CssModuleExportView,
    references: Seq<CssModuleReferenceView>,
)
    requires
        forall|i: int| 0 <= i < references.len() ==> export.composes.contains(#[trigger] references[i]),
    ensures
        composing_all(export, references) == export,
    decreases references.len(),
{
    if references.len() > 0 {
        let front = references.drop_last();
        assert forall|i: int| 0 <= i < front.len() implies export.composes.contains(
            #[trigger] front[i],
        ) by {
            assert(front[i] == references[i]);
        }
        lemma_composing_present(export, front);
        assert(export.composes.contains(references[references.len() - 1]));
    }
}

/// Composing the same names from the same source onto a class twice gives what
/// composing them once gives: each reference stands once in the entry.
pub proof fn lemma_composes_twice(
    exports: ExportMap,
    class: Seq<char>,
    references: Seq<CssModuleReferenceView>,
)
    requires
        exports.contains_key(class),
    ensures
        with_composes(with_composes(exports, class, references), class, references)
            == with_composes(exports, class, references),
        no_duplicates(exports[class].composes) ==> no_duplicates(
            with_composes(exports, class, references)[class].composes,
        ),
{
    let once = composing_all(exports[class], references);
    lemma_composing_all_holds(exports[class], references);
    lemma_composing_present(once, references);
    assert(with_composes(with_composes(exports, class, references), class, references)
        =~= with_composes(exports, class, references));
}

/// One reference composed twice onto an entry that composes nothing stands there once.
pub proof fn lemma_same_reference_twice(
    export: CssModuleExportView,
    reference: CssModuleReferenceView,
)
    requires
        export.composes.len() == 0,
    ensures
        composing_all(export, seq![reference, reference]).composes == seq![reference],
{
    let twice = seq![reference, reference];
    assert(twice.drop_last() =~= seq![reference]);
    assert(seq![reference].drop_last() =~= Seq::<CssModuleReferenceView>::empty());
    assert(composing_all(export, Seq::empty()) == export);
    assert(composing_all(export, seq![reference]).composes =~= seq![reference]) by {
        assert(seq![reference].last() == reference);
        assert(export.composes =~= Seq::<CssModuleReferenceView>::empty());
        assert(!export.composes.contains(reference));
    }
    assert(seq![reference][0] == reference);
    assert(seq![reference].contains(reference));
}

/// Whether no entry of a table composes the same reference twice.
pub open spec fn composes_are_distinct(exports: ExportMap) -> bool {
    forall|key: Seq<char>| #[trigger]
        exports.contains_key(key) ==> no_duplicates(exports[key].composes)
}

/// Composing keeps every entry free of duplicates, however often a name is repeated in
/// the declaration and however often the declaration is resolved.
pub proof fn lemma_composes_stay_distinct(
    exports: ExportMap,
    classes: Seq<Seq<char>>,
    references: Seq<CssModuleReferenceView>,
)
    requires
        composes_are_distinct(exports),
        references.len() > 0 ==> forall|k: int|
            0 <= k < classes.len() ==> exports.contains_key(#[trigger] classes[k]),
    ensures
        composes_are_distinct(with_composes_on_all(exports, classes, references)),
        with_composes_on_all(exports, classes, references).dom() == exports.dom(),
    decreases classes.len(),
{
    if classes.len() > 0 {
        let front = classes.drop_last();
        assert forall|k: int| 0 <= k < front.len() implies exports.contains_key(
            #[trigger] front[k],
        ) || references.len() == 0 by {
            assert(front[k] == classes[k]);
        }
        lemma_composes_stay_distinct(exports, front, references);
        let before = with_composes_on_all(exports, front, references);
        let last = classes[classes.len() - 1];
        if references.len() > 0 {
            assert(exports.contains_key(last));
            assert(before.dom().contains(last));
            lemma_composing_all_holds(before[last], references);
            let after = with_composes(before, last, references);
            assert(after.dom() =~= before.dom());
            assert forall|key: Seq<char>| #[trigger] after.contains_key(key) implies no_duplicates(
                after[key].composes,
            ) by {
                if key != last {
                    assert(before.contains_key(key));
                }
            }
        }
    }
}

} // verus!
