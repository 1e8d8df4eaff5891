//! The printer: the sink that rules are serialized into.

use crate::css_modules::scope::{with_local, CssModule, ExportMap, Naming};
use crate::dependencies::Dependency;
use crate::error::{Error, ErrorLocation, Location, PrinterError, PrinterErrorKind};
use crate::serializer::{css_identifier, serialize_identifier};
use vstd::prelude::*;
use vstd::string::*;

verus! {

/// Options that control how CSS is serialized to a string.
#[derive(Debug, Clone, Copy)]
pub struct PrinterOptions {
    /// Whether to minify the CSS, i.e. remove white space.
    pub minify: bool,
    /// Whether the places where rules begin are to be recorded for a source map.
    pub source_map: bool,
    /// Whether to analyze dependencies (`@import` and `url()`).
    pub analyze_dependencies: bool,
}

impl Default for PrinterOptions {
    /// Nothing is switched on.
    fn default() -> (options: Self)
        ensures
            !options.minify,
            !options.source_map,
            !options.analyze_dependencies,
    {
        PrinterOptions { minify: false, source_map: false, analyze_dependencies: false }
    }
}

/// The place in the output where the text of a rule begins, and the place in the
/// sources where the rule stood.
#[derive(Debug, Clone, Copy)]
pub struct Mapping {
    /// The number of bytes written before the rule.
    pub generated_offset: usize,
    /// Where the rule stood in its source.
    pub original: Location,
}

/// The name used for a source that is not listed.
pub const UNKNOWN_FILENAME: &'static str = "unknown.css";

/// A `Printer` collects the serialized CSS and what printing finds on the way.
pub struct Printer<'a, 'b> {
    /// The text written so far.
    pub dest: String,
    /// Whether white space is left out.
    pub minify: bool,
    /// The file names of the sources, by source index.
    pub sources: Option<&'a Vec<String>>,
    /// The scoping engine, where CSS modules are enabled.
    pub css_module: Option<CssModule<'a, 'b>>,
    /// The dependencies found, where they are analyzed.
    pub dependencies: Option<Vec<Dependency>>,
    /// The places where rules begin, where a source map is asked for.
    pub mappings: Option<Vec<Mapping>>,
}

/// How names are compiled, where they are.
pub type Scope = Option<Naming>;

/// The text that an identifier is printed as: under CSS modules its compiled name,
/// otherwise the identifier itself, either one escaped as CSS asks.
pub open spec fn ident_text(scope: Scope, ident: Seq<char>) -> Seq<char> {
    match scope {
        Some(naming) => css_identifier(naming.compile(ident)),
        None => css_identifier(ident),
    }
}

/// The export table after an identifier was printed: under CSS modules the identifier
/// is declared, under its own name.
pub open spec fn ident_exports(scope: Scope, exports: ExportMap, ident: Seq<char>) -> ExportMap {
    match scope {
        Some(naming) => with_local(exports, naming, ident, ident),
        None => exports,
    }
}

/// What a printer has produced: the text, the places recorded for a source map where
/// one is asked for, and the export table (empty without CSS modules).
pub struct Output {
    pub text: Seq<char>,
    pub places: Option<Seq<Mapping>>,
    pub exports: ExportMap,
}

/// The output with `text` written after it.
pub open spec fn with_text(out: Output, text: Seq<char>) -> Output {
    Output { text: out.text + text, ..out }
}

/// The output with the export table `exports`.
pub open spec fn with_exports(out: Output, exports: ExportMap) -> Output {
    Output { exports, ..out }
}

/// The output after the place was recorded where a rule that stood at `loc` begins:
/// the number of bytes written so far. Nothing is recorded where no source map is
/// asked for.
pub open spec fn with_place(out: Output, loc: Location) -> Output {
    Output {
        places: match out.places {
            Some(places) => Some(
                places.push(
                    Mapping { generated_offset: byte_len(out.text) as usize, original: loc },
                ),
            ),
            None => None,
        },
        ..out
    }
}

/// The number of bytes that a text takes in UTF-8.
pub open spec fn byte_len(text: Seq<char>) -> nat {
    vstd::utf8::encode_utf8(text).len()
}

impl<'a, 'b> Printer<'a, 'b> {
    /// The text written so far.
    pub open spec fn text(&self) -> Seq<char> {
        self.dest@
    }

    /// How the scoping engine compiles names, where there is one.
    pub open spec fn scope(&self) -> Scope {
        match self.css_module {
            Some(module) => Some(module.naming()),
            None => None,
        }
    }

    /// The export table of the scoping engine; empty where there is none.
    pub open spec fn exports(&self) -> ExportMap {
        match self.css_module {
            Some(module) => module.exports@,
            None => ExportMap::empty(),
        }
    }

    /// The places recorded so far, where a source map is asked for.
    pub open spec fn places(&self) -> Option<Seq<Mapping>> {
        match self.mappings {
            Some(places) => Some(places@),
            None => None,
        }
    }

    /// What the printer has produced so far.
    pub open spec fn output(&self) -> Output {
        Output { text: self.text(), places: self.places(), exports: self.exports() }
    }

    /// Whether `other` is set up as this printer is: what they have produced may differ.
    pub open spec fn same_config(&self, other: &Self) -> bool {
        &&& self.minify == other.minify
        &&& self.sources == other.sources
        &&& self.dependencies == other.dependencies
        &&& self.scope() == other.scope()
        &&& self.css_module is Some ==> self.css_module->0.config == other.css_module->0.config
    }

    /// What holds of every printer: its export table is well formed.
    pub open spec fn well_formed(&self) -> bool {
        match self.css_module {
            Some(module) => module.exports.well_formed(),
            None => true,
        }
    }

    /// Whether `other` differs from this printer at most in the text written and in
    /// the entries of the export table.
    pub open spec fn same_setup(&self, other: &Self) -> bool {
        &&& self.minify == other.minify
        &&& self.sources == other.sources
        &&& self.dependencies == other.dependencies
        &&& self.mappings == other.mappings
        &&& self.scope() == other.scope()
        &&& self.css_module is Some ==> self.css_module->0.config == other.css_module->0.config
    }

    /// A printer that has written nothing, without CSS modules and without sources.
    pub fn new(options: PrinterOptions) -> (printer: Self)
        ensures
            printer.text() == Seq::<char>::empty(),
            printer.minify == options.minify,
            printer.sources is None,
            printer.css_module is None,
            printer.dependencies is Some <==> options.analyze_dependencies,
            printer.dependencies matches Some(found) ==> found@.len() == 0,
            printer.mappings is Some <==> options.source_map,
            printer.mappings matches Some(places) ==> places@.len() == 0,
            printer.places() == (if options.source_map {
                Some(Seq::<Mapping>::empty())
            } else {
                None
            }),
            printer.well_formed(),
    {
        let printer = Printer {
            dest: String::new(),
            minify: options.minify,
            sources: None,
            css_module: None,
            dependencies: if options.analyze_dependencies {
                Some(Vec::new())
            } else {
                None
            },
            mappings: if options.source_map {
                Some(Vec::new())
            } else {
                None
            },
        };
        proof {
            if options.source_map {
                assert(printer.mappings->0@ =~= Seq::<Mapping>::empty());
            }
        }
        printer
    }

    /// Writes a raw string to the underlying destination.
    pub fn write_str(&mut self, s: &str)
        ensures
            final(self).text() == old(self).text() + s@,
            final(self).css_module == old(self).css_module,
            final(self).same_setup(old(self)),
    {
        self.dest.append(s);
    }

    /// Writes a single space character, unless the output is minified.
    pub fn whitespace(&mut self)
        ensures
            final(self).text() == old(self).text() + (if old(self).minify {
                Seq::<char>::empty()
            } else {
                seq![' ']
            }),
            final(self).css_module == old(self).css_module,
            final(self).same_setup(old(self)),
    {
        if !self.minify {
            self.dest.append(" ");
            proof {
                reveal_strlit(" ");
                assert(" "@ =~= seq![' ']);
            }
        } else {
            assert(self.dest@ + Seq::<char>::empty() =~= self.dest@);
        }
    }

    /// Writes a new line character, unless the output is minified.
    pub fn newline(&mut self)
        ensures
            final(self).text() == old(self).text() + (if old(self).minify {
                Seq::<char>::empty()
            } else {
                seq!['\n']
            }),
            final(self).css_module == old(self).css_module,
            final(self).same_setup(old(self)),
    {
        if !self.minify {
            self.dest.append("\n");
            proof {
                reveal_strlit("\n");
                assert("\n"@ =~= seq!['\n']);
            }
        } else {
            assert(self.dest@ + Seq::<char>::empty() =~= self.dest@);
        }
    }

    /// Records that what is written next stood at `loc` in the sources, where a source
    /// map is asked for.
    pub fn add_mapping(&mut self, loc: Location)
        ensures
            final(self).output() == with_place(old(self).output(), loc),
            final(self).css_module == old(self).css_module,
            final(self).same_config(old(self)),
    {
        let generated_offset = self.dest.as_str().len();
        if let Some(places) = &mut self.mappings {
            places.push(Mapping { generated_offset, original: loc });
        }
    }

    /// Writes a CSS identifier. Under CSS modules its compiled name is written in its
    /// place, and the identifier is declared in the export table, under its own name:
    /// what is printed is the name that the table gives for it.
    pub fn write_ident(&mut self, ident: &str)
        requires
            old(self).well_formed(),
        ensures
            final(self).well_formed(),
            final(self).text() == old(self).text() + ident_text(old(self).scope(), ident@),
            final(self).exports() == ident_exports(old(self).scope(), old(self).exports(), ident@),
            final(self).same_setup(old(self)),
    {
        match &mut self.css_module {
            Some(module) => {
                let compiled = module.config.pattern.write_to_string(
                    module.hash.as_str(),
                    ident,
                    module.name.as_str(),
                );
                serialize_identifier(compiled.as_str(), &mut self.dest);
                module.add_local(ident, ident);
            },
            None => {
                serialize_identifier(ident, &mut self.dest);
            },
        }
    }

    /// The file name of the source that `loc` points into.
    pub fn filename(&self, loc: Location) -> (name: &str)
        ensures
            name@ == filename_of(self.sources, loc),
    {
        match self.sources {
            Some(sources) => {
                if (loc.source_index as usize) < sources.len() {
                    sources[loc.source_index as usize].as_str()
                } else {
                    UNKNOWN_FILENAME
                }
            },
            None => UNKNOWN_FILENAME,
        }
    }

    /// An error of the kind `kind`, located at `loc` in the source that it points into.
    pub fn error(&self, kind: PrinterErrorKind, loc: Location) -> (error: PrinterError)
        ensures
            is_error_at(error, kind, self.sources, loc),
    {
        Error {
            kind,
            loc: Some(ErrorLocation::new(loc, String::from_str(self.filename(loc)))),
        }
    }
}

/// Whether `error` is of the kind `kind` and located at `loc` in the source that `loc`
/// points into.
pub open spec fn is_error_at<T>(
    error: Error<T>,
    kind: T,
    sources: Option<&Vec<String>>,
    loc: Location,
) -> bool {
    &&& error.kind == kind
    &&& error.loc is Some
    &&& error.loc->0.filename@ == filename_of(sources, loc)
    &&& error.loc->0.line == loc.line
    &&& error.loc->0.column == loc.column
}

/// The name of the source that `loc` points into: the one listed under its source
/// index, or `unknown.css`.
pub open spec fn filename_of(sources: Option<&Vec<String>>, loc: Location) -> Seq<char> {
    match sources {
        Some(names) => if loc.source_index < names@.len() {
            names@[loc.source_index as int]@
        } else {
            UNKNOWN_FILENAME@
        },
        None => UNKNOWN_FILENAME@,
    }
}

/// The number of new lines among the first `end` bytes.
pub open spec fn lines_before(bytes: Seq<u8>, end: int) -> nat
    decreases end,
{
    if end <= 0 {
        0
    } else {
        lines_before(bytes, end - 1) + (if bytes[end - 1] == 10u8 {
            1nat
        } else {
            0nat
        })
    }
}

/// The position at which the line begins that the byte at `end` stands in: after the
/// last new line among the first `end` bytes, or 0.
pub open spec fn line_start(bytes: Seq<u8>, end: int) -> int
    decreases end,
{
    if end <= 0 {
        0
    } else if bytes[end - 1] == 10u8 {
        end
    } else {
        line_start(bytes, end - 1)
    }
}

/// A count as a `u32`, the largest `u32` standing for every count beyond it.
pub open spec fn saturated(count: int) -> u32 {
    if count > u32::MAX {
        u32::MAX
    } else {
        count as u32
    }
}

/// The line and the column at which the byte at `offset` stands in `code`, both counted
/// from 0 and the column in bytes; an offset past the end counts as the end. This is
/// how the place of a [`Mapping`] in the code is brought into the lines and columns
/// that a source map asks for.
pub fn position(code: &str, offset: usize) -> (place: (u32, u32))
    ensures
        ({
            let bytes = vstd::utf8::encode_utf8(code@);
            let end = if offset <= bytes.len() {
                offset as int
            } else {
                bytes.len() as int
            };
            &&& place.0 == saturated(lines_before(bytes, end) as int)
            &&& place.1 == saturated(end - line_start(bytes, end))
        }),
{
    let bytes = code.as_bytes();
    let end = if offset <= bytes.len() {
        offset
    } else {
        bytes.len()
    };
    let mut lines: usize = 0;
    let mut start: usize = 0;
    let mut i: usize = 0;
    while i < end
        invariant
            i <= end <= bytes@.len(),
            lines <= i,
            start <= i,
            lines == lines_before(bytes@, i as int),
            start == line_start(bytes@, i as int),
        decreases end - i,
    {
        if bytes[i] == 10u8 {
            lines += 1;
            start = i + 1;
        }
        i += 1;
    }
    let column = end - start;
    let line: u32 = if lines > 0xFFFF_FFFF {
        0xFFFF_FFFF
    } else {
        lines as u32
    };
    let column: u32 = if column > 0xFFFF_FFFF {
        0xFFFF_FFFF
    } else {
        column as u32
    };
    (line, column)
}

} // verus!
