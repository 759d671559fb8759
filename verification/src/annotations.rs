//! Field annotations and the parser of the `builder(each = "...")` directive.

use vstd::prelude::*;
use crate::ident::parse_ident;
use crate::search::{first, lemma_first_in_at, lemma_first_in_none};
use crate::text::text_eq;

verus! {

/// The path that names an annotation or a key: identifiers joined by `::`.
#[derive(Debug, PartialEq, Eq)]
pub struct MetaPath {
    /// Whether the path starts with `::`.
    pub leading_colon: bool,
    pub segments: Vec<String>,
}

/// A literal in an annotation.
#[derive(Debug, PartialEq, Eq)]
pub enum Literal {
    /// A string literal, by the text that it denotes.
    Str(String),
    /// A literal of any other kind: a number, a character, a boolean.
    Other,
}

/// One entry between the parentheses of a list annotation.
#[derive(Debug, PartialEq, Eq)]
pub enum Entry {
    /// `key = value`.
    NameValue { path: MetaPath, value: Literal },
    /// A bare path, as `skip`.
    Path,
    /// A nested list, as `rename(all)`.
    List,
    /// A bare literal, as `"x"`.
    Literal,
}

/// One raw annotation of a field.
#[derive(Debug, PartialEq, Eq)]
pub enum Annotation {
    /// `path(entries)`.
    List { path: MetaPath, entries: Vec<Entry> },
    /// Anything else: a bare path, `key = value`, or tokens that form no
    /// annotation at all.
    Other,
}

/// What is wrong with an annotation that is not `builder(each = "name")`.
#[derive(Clone, Copy, Debug, PartialEq, Eq, Structural)]
pub enum Flaw {
    /// The annotation is not a parenthesised list.
    NotAList,
    /// The list is not named `builder`.
    WrongFamily,
    /// The list has no entry.
    EmptyList,
    /// The first entry is not of the form `key = value`.
    NotNameValue,
    /// The key is not `each`.
    UnknownKey,
    /// The value is not a string literal.
    NotAString,
    /// The string does not read as one identifier.
    NotAnIdentifier,
    /// The list has more than one entry.
    ExtraEntry,
}

/// The part of an annotation that an error points at.
#[derive(Clone, Copy, Debug, PartialEq, Eq, Structural)]
pub enum Part {
    /// The annotation as a whole.
    Whole,
    /// The path that names the list.
    Family,
    /// The entry at this position of the list.
    Entry(usize),
    /// The key of the first entry.
    Key,
    /// The value of the first entry.
    Value,
}

/// Why the annotations of one field give no directive.
#[derive(Clone, Copy, Debug, PartialEq, Eq, Structural)]
pub enum AnnotationError {
    /// The annotation at `index` is malformed.
    Malformed { index: usize, flaw: Flaw },
    /// The annotation at `index` is one too many: a field bears at most one.
    Duplicate { index: usize },
}

/// The directive that names the setter which appends one item.
#[derive(Debug, PartialEq, Eq)]
pub struct AppendDirective {
    pub name: String,
}

impl View for AppendDirective {
    type V = Seq<char>;

    open spec fn view(&self) -> Seq<char> {
        self.name@
    }
}

impl Flaw {
    /// The part of the annotation at which the flaw lies.
    pub open spec fn part(self) -> Part {
        match self {
            Flaw::NotAList => Part::Whole,
            Flaw::WrongFamily => Part::Family,
            Flaw::EmptyList => Part::Whole,
            Flaw::NotNameValue => Part::Entry(0),
            Flaw::UnknownKey => Part::Key,
            Flaw::NotAString => Part::Value,
            Flaw::NotAnIdentifier => Part::Value,
            Flaw::ExtraEntry => Part::Entry(1),
        }
    }

    /// The part of the annotation at which the flaw lies.
    pub fn located(self) -> (res: Part)
        ensures
            res == self.part(),
    {
        match self {
            Flaw::NotAList => Part::Whole,
            Flaw::WrongFamily => Part::Family,
            Flaw::EmptyList => Part::Whole,
            Flaw::NotNameValue => Part::Entry(0),
            Flaw::UnknownKey => Part::Key,
            Flaw::NotAString => Part::Value,
            Flaw::NotAnIdentifier => Part::Value,
            Flaw::ExtraEntry => Part::Entry(1),
        }
    }
}

impl MetaPath {
    /// The identifier that the path consists of, where it is a single one
    /// without a leading `::`.
    pub open spec fn ident(&self) -> Option<&String> {
        if !self.leading_colon && self.segments@.len() == 1 {
            Some(&self.segments@[0])
        } else {
            None
        }
    }

    /// Whether the path is the single identifier `name`.
    pub open spec fn names(&self, name: Seq<char>) -> bool {
        self.ident() matches Some(id) && id@ == name
    }

    /// The identifier that the path consists of, where it is a single one
    /// without a leading `::`.
    pub fn get_ident(&self) -> (res: Option<&String>)
        ensures
            res == self.ident(),
    {
        if !self.leading_colon && self.segments.len() == 1 {
            Some(&self.segments[0])
        } else {
            None
        }
    }

    /// Whether the path is the single identifier `name`.
    pub fn is_ident(&self, name: &str) -> (res: bool)
        ensures
            res == self.names(name@),
    {
        match self.get_ident() {
            Some(id) => text_eq(id.as_str(), name),
            None => false,
        }
    }
}

impl Annotation {
    /// The number of entries of a list, and 0 for what is no list.
    pub open spec fn entry_count(&self) -> nat {
        match self {
            Annotation::List { entries, .. } => entries@.len(),
            Annotation::Other => 0,
        }
    }

    /// The string literal of `builder(each = "...")`, before it is read as an
    /// identifier, or the first flaw on the way to it.
    pub open spec fn each_text(&self) -> Result<&String, Flaw> {
        match self {
            Annotation::Other => Err(Flaw::NotAList),
            Annotation::List { path, entries } => if !path.names("builder"@) {
                Err(Flaw::WrongFamily)
            } else if entries@.len() == 0 {
                Err(Flaw::EmptyList)
            } else {
                match entries@[0] {
                    Entry::NameValue { path: key, value } => if !key.names("each"@) {
                        Err(Flaw::UnknownKey)
                    } else {
                        match value {
                            Literal::Str(text) => Ok(&text),
                            Literal::Other => Err(Flaw::NotAString),
                        }
                    },
                    _ => Err(Flaw::NotNameValue),
                }
            },
        }
    }

    /// What is made of the directive once its string literal has been read:
    /// `reading` is the identifier that was read from it, if any.
    pub open spec fn concluded(&self, reading: Option<Seq<char>>) -> Result<Seq<char>, Flaw> {
        match reading {
            None => Err(Flaw::NotAnIdentifier),
            Some(name) => if self.entry_count() > 1 {
                Err(Flaw::ExtraEntry)
            } else {
                Ok(name)
            },
        }
    }

    /// The name that the annotation gives to the setter of one item, or the
    /// flaw for which it gives none, where `reading` is what was read out of
    /// its string literal. An annotation that has no such literal gives its
    /// flaw whatever the reading.
    pub open spec fn directive_given(&self, reading: Reading) -> Result<Seq<char>, Flaw> {
        match self.each_text() {
            Err(flaw) => Err(flaw),
            Ok(_) => self.concluded(reading),
        }
    }

    /// Finds the string literal of `builder(each = "...")`.
    pub fn each_literal<'a>(&'a self) -> (res: Result<&'a String, Flaw>)
        ensures
            res == self.each_text(),
    {
        match self {
            Annotation::Other => Err(Flaw::NotAList),
            Annotation::List { path, entries } => {
                if !path.is_ident("builder") {
                    return Err(Flaw::WrongFamily);
                }
                if entries.len() == 0 {
                    return Err(Flaw::EmptyList);
                }
                match &entries[0] {
                    Entry::NameValue { path: key, value } => {
                        if !key.is_ident("each") {
                            return Err(Flaw::UnknownKey);
                        }
                        match value {
                            Literal::Str(text) => Ok(text),
                            Literal::Other => Err(Flaw::NotAString),
                        }
                    },
                    _ => Err(Flaw::NotNameValue),
                }
            },
        }
    }

    /// Concludes the directive from what was read out of its string literal.
    pub fn conclude(&self, reading: Option<String>) -> (res: Result<AppendDirective, Flaw>)
        ensures
            directive_view(res) == self.concluded(reading_view(reading)),
            res matches Ok(directive) ==> reading == Some(directive.name),
    {
        match reading {
            None => Err(Flaw::NotAnIdentifier),
            Some(name) => {
                let extra = match self {
                    Annotation::List { entries, .. } => entries.len() > 1,
                    Annotation::Other => false,
                };
                if extra {
                    Err(Flaw::ExtraEntry)
                } else {
                    Ok(AppendDirective { name })
                }
            },
        }
    }

    /// Reads one annotation as `builder(each = "name")`. A flaw on the way to
    /// the string literal is the outcome as it stands. The string is then
    /// read as an identifier, and the outcome is what follows from some
    /// reading of it.
    pub fn parse_each(&self) -> (res: Result<AppendDirective, Flaw>)
        ensures
            self.each_text() matches Err(flaw) ==> res == Err::<AppendDirective, Flaw>(flaw),
            exists|reading: Reading|
                #[trigger] self.directive_given(reading) == directive_view(res),
    {
        match self.each_literal() {
            Err(flaw) => {
                assert(self.directive_given(None) == Err::<Seq<char>, Flaw>(flaw));
                Err(flaw)
            },
            Ok(text) => {
                let reading = parse_ident(text.as_str());
                let res = self.conclude(reading);
                assert(self.directive_given(reading_view(reading)) == directive_view(res));
                res
            },
        }
    }
}

/// What was read out of a string literal: the spelling of the identifier, or
/// nothing where the string did not read as one identifier.
pub type Reading = Option<Seq<char>>;

/// A reading as plain text.
pub open spec fn reading_view(reading: Option<String>) -> Reading {
    match reading {
        Some(name) => Some(name@),
        None => None,
    }
}

/// The outcome of reading one annotation, with the name as plain text.
pub open spec fn directive_view(res: Result<AppendDirective, Flaw>) -> Result<Seq<char>, Flaw> {
    match res {
        Ok(directive) => Ok(directive@),
        Err(flaw) => Err(flaw),
    }
}

/// The outcome of reading the annotations of one field, with the name as
/// plain text.
pub open spec fn annotations_view(res: Result<Option<AppendDirective>, AnnotationError>) -> Result<
    Option<Seq<char>>,
    AnnotationError,
> {
    match res {
        Ok(Some(directive)) => Ok(Some(directive@)),
        Ok(None) => Ok(None),
        Err(error) => Err(error),
    }
}

/// What each annotation gives, where `readings` holds for each what was read
/// out of its string literal.
pub open spec fn outcomes(annotations: Seq<Annotation>, readings: Seq<Reading>) -> Seq<
    Result<Seq<char>, Flaw>,
> {
    Seq::new(annotations.len(), |i: int| annotations[i].directive_given(readings[i]))
}

/// Whether an annotation failed to give a directive.
pub open spec fn flawed(outcome: Result<Seq<char>, Flaw>) -> bool {
    outcome is Err
}

/// What the annotations of one field amount to, given the readings of their
/// string literals: the name of the setter of one item, nothing where the
/// field bears no annotation, or the error. Every annotation is read, first
/// to last, and the first flaw is the error; a second annotation is an error
/// even where both read well.
pub open spec fn parsed_annotations(annotations: Seq<Annotation>, readings: Seq<Reading>) -> Result<
    Option<Seq<char>>,
    AnnotationError,
> {
    let given = outcomes(annotations, readings);
    match first(given, |o: Result<Seq<char>, Flaw>| flawed(o)) {
        Some(i) => Err(AnnotationError::Malformed { index: i as usize, flaw: given[i]->Err_0 }),
        None => if annotations.len() == 0 {
            Ok(None)
        } else if annotations.len() == 1 {
            Ok(Some(given[0]->Ok_0))
        } else {
            Err(AnnotationError::Duplicate { index: 1 })
        },
    }
}

/// Reads the annotations of one field. The outcome is what follows from some
/// readings of their string literals, one for each annotation.
pub fn parse_annotations(annotations: &Vec<Annotation>) -> (res: Result<
    Option<AppendDirective>,
    AnnotationError,
>)
    ensures
        exists|readings: Seq<Reading>|
            readings.len() == annotations@.len() && #[trigger] parsed_annotations(
                annotations@,
                readings,
            ) == annotations_view(res),
{
    let ghost mut readings: Seq<Reading> = Seq::empty();
    let n: usize = annotations.len();
    let mut found: Option<AppendDirective> = None;
    let mut i: usize = 0;
    while i < n
        invariant
            n == annotations@.len(),
            0 <= i <= n,
            readings.len() == i,
            forall|j: int|
                0 <= j < i ==> (#[trigger] annotations@[j]).directive_given(readings[j]) is Ok,
            i == 0 ==> found is None,
            i > 0 ==> (found matches Some(directive) && annotations@[0].directive_given(
                readings[0],
            ) == Ok::<Seq<char>, Flaw>(directive@)),
        decreases n - i,
    {
        let parsed = annotations[i].parse_each();
        let ghost reading = choose|reading: Reading| #[trigger]
            annotations@[i as int].directive_given(reading) == directive_view(parsed);
        match parsed {
            Err(flaw) => {
                let error = AnnotationError::Malformed { index: i, flaw };
                proof {
                    let p = |o: Result<Seq<char>, Flaw>| flawed(o);
                    let all = readings.push(reading) + Seq::new(
                        (n - i - 1) as nat,
                        |k: int| None::<Seq<char>>,
                    );
                    let given = outcomes(annotations@, all);
                    assert forall|j: int| 0 <= j < i implies !p(#[trigger] given[j]) by {
                        assert(all[j] == readings[j]);
                        assert(annotations@[j].directive_given(readings[j]) is Ok);
                    }
                    assert(all[i as int] == reading);
                    lemma_first_in_at(given, p, i as int, n as nat);
                    assert(parsed_annotations(annotations@, all) == annotations_view(Err(error)));
                }
                return Err(error);
            },
            Ok(directive) => {
                proof {
                    readings = readings.push(reading);
                }
                if i == 0 {
                    found = Some(directive);
                }
            },
        }
        i = i + 1;
    }
    let res = if n > 1 {
        Err(AnnotationError::Duplicate { index: 1 })
    } else {
        Ok(found)
    };
    proof {
        let p = |o: Result<Seq<char>, Flaw>| flawed(o);
        let given = outcomes(annotations@, readings);
        assert forall|j: int| 0 <= j < n implies !p(#[trigger] given[j]) by {
            assert(annotations@[j].directive_given(readings[j]) is Ok);
        }
        lemma_first_in_none(given, p, n as nat);
        assert(parsed_annotations(annotations@, readings) == annotations_view(res));
    }
    res
}

} // verus!
