//! Declarations, as far as scoping, minification and printing read them.

use crate::error::Location;
use crate::printer::Printer;
use crate::serializer::{css_identifier, css_string, serialize_identifier, serialize_string};
use vstd::prelude::*;
use vstd::string::*;

verus! {

/// A custom identifier: a name that the author of a style sheet chose.
#[derive(Debug)]
pub struct CustomIdent(pub String);

/// Where the names of a `composes` declaration come from.
#[derive(Debug)]
pub enum ComposesFrom {
    /// The names are global: they are not compiled.
    Global,
    /// The names stand in the file that the specifier points at.
    File(String),
}

/// A value for the `composes` property of CSS modules.
#[derive(Debug)]
pub struct Composes {
    /// The names to be composed.
    pub names: Vec<CustomIdent>,
    /// Where the names come from, if not from the same file.
    pub from: Option<ComposesFrom>,
    /// The source location of the declaration.
    pub loc: Location,
}

/// A declaration that is kept as written: the name of a property and its value.
#[derive(Debug)]
pub struct CustomProperty {
    /// The name of the property.
    pub name: String,
    /// The value, as CSS text.
    pub value: String,
}

/// A CSS property.
#[derive(Debug)]
pub enum Property {
    /// The `composes` property of CSS modules.
    Composes(Composes),
    /// Any other property.
    Custom(CustomProperty),
}

/// A CSS declaration block: the `!important` declarations and the others, each list in
/// source order.
#[derive(Debug)]
pub struct DeclarationBlock {
    /// The declarations marked `!important`.
    pub important_declarations: Vec<Property>,
    /// The declarations that are not.
    pub declarations: Vec<Property>,
}

/// How the declarations of a block are laid out.
#[derive(Clone, Copy, Debug, PartialEq, Eq, Structural)]
pub enum BlockStyle {
    /// On one line, as in a style attribute.
    Inline,
    /// One to a line, in the block of a top-level rule.
    Block,
    /// One to a line, in the block of a rule inside another rule.
    Nested,
}

/// A space, unless the output is minified.
pub open spec fn space(minify: bool) -> Seq<char> {
    if minify {
        Seq::empty()
    } else {
        " "@
    }
}

/// The composed names, each written as an identifier, with a space between two.
pub open spec fn names_text(names: Seq<CustomIdent>) -> Seq<char>
    decreases names.len(),
{
    if names.len() == 0 {
        Seq::empty()
    } else {
        names_text(names.drop_last()) + (if names.len() > 1 {
            " "@
        } else {
            Seq::empty()
        }) + css_identifier(names.last().0@)
    }
}

/// The `from` part of a `composes` declaration.
pub open spec fn from_text(from: Option<ComposesFrom>) -> Seq<char> {
    match from {
        None => Seq::empty(),
        Some(ComposesFrom::Global) => " from global"@,
        Some(ComposesFrom::File(file)) => " from "@ + css_string(file@),
    }
}

/// The text of a property without its importance: the name, a colon, the value.
pub open spec fn declaration_text(property: Property, minify: bool) -> Seq<char> {
    match property {
        Property::Composes(composes) => "composes:"@ + space(minify) + names_text(composes.names@)
            + from_text(composes.from),
        Property::Custom(custom) => custom.name@ + ":"@ + space(minify) + custom.value@,
    }
}

/// The text of a property as a declaration.
pub open spec fn property_text(property: Property, important: bool, minify: bool) -> Seq<char> {
    declaration_text(property, minify) + (if important {
        space(minify) + "!important"@
    } else {
        Seq::empty()
    })
}

/// What is written before a declaration of a block; `first` says whether it is the
/// first one printed.
pub open spec fn entry_before(style: BlockStyle, minify: bool, first: bool) -> Seq<char> {
    if minify {
        if !first {
            ";"@
        } else {
            Seq::empty()
        }
    } else {
        match style {
            BlockStyle::Inline => if !first {
                "; "@
            } else {
                Seq::empty()
            },
            BlockStyle::Block => "\n  "@,
            BlockStyle::Nested => "\n    "@,
        }
    }
}

/// What is written after each declaration of a block.
pub open spec fn entry_after(style: BlockStyle, minify: bool) -> Seq<char> {
    if !minify && style != BlockStyle::Inline {
        ";"@
    } else {
        Seq::empty()
    }
}

/// The text of a declaration within a block; `first` says whether it is the first one
/// printed.
pub open spec fn entry_text(
    style: BlockStyle,
    minify: bool,
    first: bool,
    property: Property,
    important: bool,
) -> Seq<char> {
    entry_before(style, minify, first) + property_text(property, important, minify) + entry_after(
        style,
        minify,
    )
}

/// Whether a declaration is printed: under CSS modules a `composes` declaration is
/// resolved into the export table and left out of the text.
pub open spec fn is_printed(scoped: bool, property: Property) -> bool {
    !(scoped && property is Composes)
}

/// The number of declarations among `items` that are printed.
pub open spec fn printed_count(scoped: bool, items: Seq<Property>) -> nat
    decreases items.len(),
{
    if items.len() == 0 {
        0
    } else {
        printed_count(scoped, items.drop_last()) + (if is_printed(scoped, items.last()) {
            1nat
        } else {
            0nat
        })
    }
}

/// The text of the declarations `items`; `any_before` says whether a declaration of
/// the block was printed before them.
pub open spec fn entries_text(
    style: BlockStyle,
    minify: bool,
    scoped: bool,
    items: Seq<Property>,
    important: bool,
    any_before: bool,
) -> Seq<char>
    decreases items.len(),
{
    if items.len() == 0 {
        Seq::empty()
    } else {
        entries_text(style, minify, scoped, items.drop_last(), important, any_before) + (
        if is_printed(scoped, items.last()) {
            entry_text(
                style,
                minify,
                !any_before && printed_count(scoped, items.drop_last()) == 0,
                items.last(),
                important,
            )
        } else {
            Seq::empty()
        })
    }
}

/// The text of a block: its declarations, then its `!important` declarations.
pub open spec fn block_text(
    style: BlockStyle,
    minify: bool,
    scoped: bool,
    declarations: Seq<Property>,
    important_declarations: Seq<Property>,
) -> Seq<char> {
    entries_text(style, minify, scoped, declarations, false, false) + entries_text(
        style,
        minify,
        scoped,
        important_declarations,
        true,
        printed_count(scoped, declarations) > 0,
    )
}

/// Whether `earlier` is made void by `later`: both declare the same property with the
/// same value. A `composes` declaration is never void.
pub open spec fn supersedes(later: Property, earlier: Property) -> bool {
    match (later, earlier) {
        (Property::Custom(a), Property::Custom(b)) => a.name@ == b.name@ && a.value@ == b.value@,
        _ => false,
    }
}

/// Whether some declaration among `items` makes `property` void.
pub open spec fn superseded_by_any(items: Seq<Property>, property: Property) -> bool {
    exists|j: int| 0 <= j < items.len() && supersedes(#[trigger] items[j], property)
}

/// The declarations without those that a later one makes void: of equal declarations
/// the last one stays, at its place.
pub open spec fn keep_last(items: Seq<Property>) -> Seq<Property>
    decreases items.len(),
{
    if items.len() == 0 {
        Seq::empty()
    } else if superseded_by_any(items.drop_first(), items[0]) {
        keep_last(items.drop_first())
    } else {
        seq![items[0]] + keep_last(items.drop_first())
    }
}

impl Composes {
    /// Serializes the declaration without its importance.
    pub fn to_css(&self, dest: &mut Printer)
        ensures
            final(dest).text() == old(dest).text() + declaration_text(
                Property::Composes(*self),
                old(dest).minify,
            ),
            final(dest).css_module == old(dest).css_module,
            final(dest).same_setup(old(dest)),
    {
        let ghost start = dest.text();
        let ghost minify = dest.minify;
        dest.write_str("composes:");
        dest.whitespace();
        proof {
            reveal_strlit(" ");
        }
        let ghost head = dest.text();
        assert(head =~= start + ("composes:"@ + space(minify)));
        let n = self.names.len();
        let mut i: usize = 0;
        assert(self.names@.take(0) =~= Seq::<CustomIdent>::empty());
        assert(head + Seq::<char>::empty() =~= head);
        while i < n
            invariant
                n == self.names@.len(),
                i <= n,
                dest.css_module == old(dest).css_module,
                dest.same_setup(old(dest)),
                dest.text() == head + names_text(self.names@.take(i as int)),
            decreases n - i,
        {
            let ghost done = names_text(self.names@.take(i as int));
            let ghost piece = css_identifier(self.names@[i as int].0@);
            assert(self.names@.take(i + 1).drop_last() =~= self.names@.take(i as int));
            if i > 0 {
                dest.write_str(" ");
                assert(head + (done + " "@ + piece) =~= (head + done + " "@) + piece);
            } else {
                assert(head + (done + Seq::<char>::empty() + piece) =~= (head + done) + piece);
            }
            serialize_identifier(self.names[i].0.as_str(), &mut dest.dest);
            i += 1;
        }
        assert(self.names@.take(n as int) =~= self.names@);
        let ghost names = names_text(self.names@);
        match &self.from {
            None => {
                assert(head + names =~= start + ("composes:"@ + space(minify) + names
                    + Seq::<char>::empty()));
            },
            Some(ComposesFrom::Global) => {
                dest.write_str(" from global");
                assert(head + names + " from global"@ =~= start + ("composes:"@ + space(minify)
                    + names + " from global"@));
            },
            Some(ComposesFrom::File(file)) => {
                dest.write_str(" from ");
                serialize_string(file.as_str(), &mut dest.dest);
                assert(head + names + " from "@ + css_string(file@) =~= start + ("composes:"@
                    + space(minify) + names + (" from "@ + css_string(file@))));
            },
        }
    }
}

impl Property {
    /// Serializes the property as a declaration, with `!important` where it is.
    pub fn to_css(&self, dest: &mut Printer, important: bool)
        ensures
            final(dest).text() == old(dest).text() + property_text(*self, important, old(dest).minify),
            final(dest).css_module == old(dest).css_module,
            final(dest).same_setup(old(dest)),
    {
        let ghost start = dest.text();
        let ghost minify = dest.minify;
        match self {
            Property::Composes(composes) => {
                composes.to_css(dest);
            },
            Property::Custom(custom) => {
                dest.write_str(custom.name.as_str());
                dest.write_str(":");
                dest.whitespace();
                dest.write_str(custom.value.as_str());
                proof {
                    reveal_strlit(" ");
                    assert(dest.text() =~= start + (custom.name@ + ":"@ + space(minify)
                        + custom.value@));
                }
            },
        }
        let ghost body = declaration_text(*self, minify);
        if important {
            dest.whitespace();
            dest.write_str("!important");
            proof {
                reveal_strlit(" ");
                assert(dest.text() =~= start + (body + (space(minify) + "!important"@)));
            }
        } else {
            assert(start + body =~= start + (body + Seq::<char>::empty()));
        }
    }

    /// Serializes the property as a declaration of a block laid out in `style`;
    /// `first` says whether it is the first one printed.
    pub fn write_entry(&self, dest: &mut Printer, important: bool, style: BlockStyle, first: bool)
        ensures
            final(dest).text() == old(dest).text() + entry_text(
                style,
                old(dest).minify,
                first,
                *self,
                important,
            ),
            final(dest).css_module == old(dest).css_module,
            final(dest).same_setup(old(dest)),
    {
        let ghost start = dest.text();
        let ghost minify = dest.minify;
        let ghost before = entry_before(style, minify, first);
        let ghost body = property_text(*self, important, minify);
        if dest.minify {
            if !first {
                dest.write_str(";");
            } else {
                assert(start + Seq::<char>::empty() =~= start);
            }
        } else {
            match style {
                BlockStyle::Inline => {
                    if !first {
                        dest.write_str("; ");
                    } else {
                        assert(start + Seq::<char>::empty() =~= start);
                    }
                },
                BlockStyle::Block => {
                    dest.write_str("\n  ");
                },
                BlockStyle::Nested => {
                    dest.write_str("\n    ");
                },
            }
        }
        assert(dest.text() == start + before);
        self.to_css(dest, important);
        if !dest.minify && style != BlockStyle::Inline {
            dest.write_str(";");
            assert(dest.text() =~= start + (before + body + ";"@));
        } else {
            assert(dest.text() =~= start + (before + body + Seq::<char>::empty()));
        }
    }

    /// Whether this declaration makes `earlier` void: both declare the same property
    /// with the same value.
    pub fn supersedes(&self, earlier: &Property) -> (void: bool)
        ensures
            void == supersedes(*self, *earlier),
    {
        match self {
            Property::Custom(a) => match earlier {
                Property::Custom(b) => a.name == b.name && a.value == b.value,
                _ => false,
            },
            _ => false,
        }
    }
}

/// Whether a declaration of `items` after position `from` makes `property` void.
fn superseded_later(items: &Vec<Property>, from: usize, property: &Property) -> (void: bool)
    requires
        from <= items.len(),
    ensures
        void == superseded_by_any(items@.skip(from as int), *property),
{
    let mut j: usize = from;
    while j < items.len()
        invariant
            from <= j <= items.len(),
            forall|k: int| from <= k < j ==> !supersedes(items@[k], *property),
        decreases items.len() - j,
    {
        if items[j].supersedes(property) {
            assert(supersedes(items@.skip(from as int)[j - from], *property));
            return true;
        }
        j += 1;
    }
    assert forall|k: int| 0 <= k < items@.skip(from as int).len() implies !supersedes(
        #[trigger] items@.skip(from as int)[k],
        *property,
    ) by {
        assert(items@.skip(from as int)[k] == items@[from + k]);
    }
    false
}

/// Drops from `items` each declaration that a later one makes void.
fn retain_last(items: &mut Vec<Property>)
    ensures
        final(items)@ == keep_last(old(items)@),
{
    let mut i: usize = 0;
    assert(items@.take(0) + keep_last(items@.skip(0)) =~= keep_last(items@)) by {
        assert(items@.skip(0) =~= items@);
    }
    while i < items.len()
        invariant
            i <= items.len(),
            keep_last(old(items)@) == items@.take(i as int) + keep_last(items@.skip(i as int)),
        decreases items.len() - i,
    {
        let ghost before = items@;
        let ghost rest = before.skip(i as int);
        assert(rest.drop_first() =~= before.skip(i + 1));
        assert(rest[0] == before[i as int]);
        let void = {
            let property = &items[i];
            superseded_later(items, i + 1, property)
        };
        if void {
            let _ = items.remove(i);
            assert(items@.take(i as int) =~= before.take(i as int));
            assert(items@.skip(i as int) =~= before.skip(i + 1));
        } else {
            assert(before.take(i + 1) =~= before.take(i as int) + seq![before[i as int]]);
            assert(before.take(i as int) + (seq![before[i as int]] + keep_last(before.skip(i + 1)))
                =~= before.take(i + 1) + keep_last(before.skip(i + 1)));
            i += 1;
        }
    }
    assert(items@.skip(items@.len() as int) =~= Seq::<Property>::empty());
    assert(items@.take(items@.len() as int) =~= items@);
    assert(items@ + Seq::<Property>::empty() =~= items@);
}

impl DeclarationBlock {
    /// Whether the block holds no declaration.
    pub fn is_empty(&self) -> (empty: bool)
        ensures
            empty == (self.declarations@.len() == 0 && self.important_declarations@.len() == 0),
    {
        self.declarations.len() == 0 && self.important_declarations.len() == 0
    }

    /// Minifies the block: of declarations that say the same, only the last one stays.
    /// The two lists are handled apart, and a `composes` declaration always stays.
    pub fn minify(&mut self)
        ensures
            final(self).declarations@ == keep_last(old(self).declarations@),
            final(self).important_declarations@ == keep_last(old(self).important_declarations@),
    {
        retain_last(&mut self.important_declarations);
        retain_last(&mut self.declarations);
    }

    /// Serializes the block on one line: the declarations, then the `!important`
    /// declarations, with a semicolon between two.
    pub fn to_css(&self, dest: &mut Printer)
        ensures
            final(dest).text() == old(dest).text() + block_text(
                BlockStyle::Inline,
                old(dest).minify,
                false,
                self.declarations@,
                self.important_declarations@,
            ),
            final(dest).css_module == old(dest).css_module,
            final(dest).same_setup(old(dest)),
    {
        let ghost start = dest.text();
        let printed = write_entries(&self.declarations, dest, false, BlockStyle::Inline, false);
        let _ = write_entries(&self.important_declarations, dest, true, BlockStyle::Inline, printed);
        assert(dest.text() =~= start + block_text(
            BlockStyle::Inline,
            old(dest).minify,
            false,
            self.declarations@,
            self.important_declarations@,
        ));
    }
}

/// Without CSS modules every declaration is printed.
pub proof fn lemma_all_printed(items: Seq<Property>)
    ensures
        printed_count(false, items) == items.len(),
    decreases items.len(),
{
    if items.len() > 0 {
        lemma_all_printed(items.drop_last());
    }
}

/// Serializes all of `items`; `any_before` says whether a declaration of the block
/// was printed before them, and the result whether one is printed after them.
pub fn write_entries(
    items: &Vec<Property>,
    dest: &mut Printer,
    important: bool,
    style: BlockStyle,
    any_before: bool,
) -> (printed: bool)
    ensures
        printed == (any_before || printed_count(false, items@) > 0),
        final(dest).text() == old(dest).text() + entries_text(
            style,
            old(dest).minify,
            false,
            items@,
            important,
            any_before,
        ),
        final(dest).css_module == old(dest).css_module,
        final(dest).same_setup(old(dest)),
{
    let ghost start = dest.text();
    let ghost minify = dest.minify;
    let n = items.len();
    let mut i: usize = 0;
    assert(items@.take(0) =~= Seq::<Property>::empty());
    assert(start + Seq::<char>::empty() =~= start);
    while i < n
        invariant
            n == items@.len(),
            i <= n,
            minify == old(dest).minify,
            dest.css_module == old(dest).css_module,
            dest.same_setup(old(dest)),
            dest.text() == start + entries_text(
                style,
                minify,
                false,
                items@.take(i as int),
                important,
                any_before,
            ),
        decreases n - i,
    {
        let ghost done = entries_text(
            style,
            minify,
            false,
            items@.take(i as int),
            important,
            any_before,
        );
        let ghost piece = entry_text(
            style,
            minify,
            !any_before && i == 0,
            items@[i as int],
            important,
        );
        proof {
            assert(items@.take(i + 1).drop_last() =~= items@.take(i as int));
            lemma_all_printed(items@.take(i as int));
            assert(start + (done + piece) =~= (start + done) + piece);
        }
        items[i].write_entry(dest, important, style, !any_before && i == 0);
        i += 1;
    }
    proof {
        assert(items@.take(n as int) =~= items@);
        lemma_all_printed(items@);
    }
    any_before || n > 0
}

/// Whether no declaration of `items` is made void by a later one.
pub open spec fn is_deduplicated(items: Seq<Property>) -> bool {
    forall|i: int, j: int| 0 <= i < j < items.len() ==> !supersedes(items[j], items[i])
}

/// Each declaration that stays stood among the declarations, and the last one of a
/// list that is not empty always stays.
pub proof fn lemma_keep_last_members(items: Seq<Property>)
    ensures
        forall|k: int|
            0 <= k < keep_last(items).len() ==> items.contains(#[trigger] keep_last(items)[k]),
        items.len() > 0 ==> keep_last(items).len() > 0,
        keep_last(items).len() <= items.len(),
    decreases items.len(),
{
    if items.len() > 0 {
        let rest = items.drop_first();
        lemma_keep_last_members(rest);
        let kept = keep_last(items);
        if rest.len() == 0 {
            assert(!superseded_by_any(rest, items[0]));
        }
        assert forall|k: int| 0 <= k < kept.len() implies items.contains(#[trigger] kept[k]) by {
            if superseded_by_any(rest, items[0]) {
                let j = choose|j: int| 0 <= j < rest.len() && rest[j] == keep_last(rest)[k];
                assert(items[j + 1] == rest[j]);
            } else if k == 0 {
                assert(items[0] == kept[0]);
            } else {
                assert(kept[k] == keep_last(rest)[k - 1]);
                let j = choose|j: int| 0 <= j < rest.len() && rest[j] == keep_last(rest)[k - 1];
                assert(items[j + 1] == rest[j]);
            }
        }
    }
}

/// What stays holds no declaration that a later one makes void.
pub proof fn lemma_keep_last_deduplicated(items: Seq<Property>)
    ensures
        is_deduplicated(keep_last(items)),
    decreases items.len(),
{
    if items.len() > 0 {
        let rest = items.drop_first();
        lemma_keep_last_deduplicated(rest);
        lemma_keep_last_members(rest);
        let kept = keep_last(items);
        if !superseded_by_any(rest, items[0]) {
            assert forall|i: int, j: int| 0 <= i < j < kept.len() implies !supersedes(
                kept[j],
                kept[i],
            ) by {
                if i == 0 {
                    let later = keep_last(rest)[j - 1];
                    assert(kept[j] == later);
                    assert(rest.contains(later));
                    let m = choose|m: int| 0 <= m < rest.len() && rest[m] == later;
                    assert(!supersedes(rest[m], items[0]));
                } else {
                    assert(kept[i] == keep_last(rest)[i - 1]);
                    assert(kept[j] == keep_last(rest)[j - 1]);
                }
            }
        }
    }
}

/// Declarations of which none is made void by a later one all stay.
pub proof fn lemma_keep_last_fixed(items: Seq<Property>)
    requires
        is_deduplicated(items),
    ensures
        keep_last(items) == items,
    decreases items.len(),
{
    if items.len() > 0 {
        let rest = items.drop_first();
        assert forall|i: int, j: int| 0 <= i < j < rest.len() implies !supersedes(
            rest[j],
            rest[i],
        ) by {
            assert(rest[i] == items[i + 1]);
            assert(rest[j] == items[j + 1]);
        }
        lemma_keep_last_fixed(rest);
        assert(!superseded_by_any(rest, items[0])) by {
            if superseded_by_any(rest, items[0]) {
                let j = choose|j: int| 0 <= j < rest.len() && supersedes(#[trigger] rest[j], items[0]);
                assert(rest[j] == items[j + 1]);
            }
        }
        assert(seq![items[0]] + rest =~= items);
    }
}

/// Minifying declarations twice gives what minifying them once gives.
pub proof fn lemma_keep_last_idempotent(items: Seq<Property>)
    ensures
        keep_last(keep_last(items)) == keep_last(items),
{
    lemma_keep_last_deduplicated(items);
    lemma_keep_last_fixed(keep_last(items));
}

} // verus!
