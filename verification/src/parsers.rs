//! The parsers that are registered, by label.

use vstd::prelude::*;
use crate::text::str_eq;

verus! {

/// A specification for parsers
#[derive(Clone, Debug, Default, PartialEq, Eq)]
pub struct Parser {
    /// The language that the parser parses
    pub language: String,
}

/// No parser has the label.
#[derive(Clone, Debug, PartialEq, Eq)]
pub struct UnknownParser {
    pub label: String,
}

impl UnknownParser {
    /// The error in words.
    pub fn message(&self) -> (message: String)
        ensures
            message@ == "No parser with label `"@ + self.label@ + "`"@,
    {
        let mut message = String::from_str("No parser with label `");
        message.append(self.label.as_str());
        message.append("`");
        message
    }
}

/// A set of registered parsers, either built-in, or provided by plugins
#[derive(Clone, Debug, PartialEq, Eq)]
pub struct Parsers {
    /// The parsers with their labels, in the order of the labels
    pub inner: Vec<(String, Parser)>,
}

/// The labels of the built-in parsers, in order.
pub open spec fn builtin_labels() -> Seq<Seq<char>> {
    seq![
        "bash"@,
        "calc"@,
        "http"@,
        "js"@,
        "json"@,
        "json5"@,
        "postgrest"@,
        "prql"@,
        "py"@,
        "r"@,
        "rust"@,
        "sql"@,
        "tailwind"@,
        "ts"@,
    ]
}

impl Parsers {
    /// The labels of the parsers with their languages.
    pub open spec fn entries(self) -> Seq<(Seq<char>, Seq<char>)> {
        self.inner@.map_values(|entry: (String, Parser)| (entry.0@, entry.1.language@))
    }

    /// Create a set of parsers: the built-in ones, each with what it says
    /// of itself, in the order of their labels. `specs[i]` is what the
    /// parser with the `i`-th label says of itself.
    pub fn new(specs: [Parser; 14]) -> (parsers: Parsers)
        ensures
            parsers.inner@.len() == 14,
            forall|i: int|
                0 <= i < 14 ==> (#[trigger] parsers.inner@[i]).0@ == builtin_labels()[i]
                    && parsers.inner@[i].1.language@ == specs[i].language@,
    {
        let labels = [
            "bash",
            "calc",
            "http",
            "js",
            "json",
            "json5",
            "postgrest",
            "prql",
            "py",
            "r",
            "rust",
            "sql",
            "tailwind",
            "ts",
        ];
        let mut inner: Vec<(String, Parser)> = Vec::new();
        let mut i: usize = 0;
        while i < 14
            invariant
                i <= 14,
                inner.len() == i,
                labels@.len() == 14,
                forall|k: int| 0 <= k < 14 ==> (#[trigger] labels@[k])@ == builtin_labels()[k],
                forall|k: int|
                    0 <= k < i ==> (#[trigger] inner@[k]).0@ == builtin_labels()[k]
                        && inner@[k].1.language@ == specs[k].language@,
            decreases 14 - i,
        {
            inner.push(
                (String::from_str(labels[i]), Parser { language: specs[i].language.clone() }),
            );
            i += 1;
        }
        Parsers { inner }
    }

    /// List the available parsers
    pub fn list(&self) -> (labels: Vec<String>)
        ensures
            labels@.map_values(|label: String| label@) == self.entries().map_values(
                |entry: (Seq<char>, Seq<char>)| entry.0,
            ),
    {
        let mut labels: Vec<String> = Vec::new();
        let mut i: usize = 0;
        while i < self.inner.len()
            invariant
                i <= self.inner.len(),
                labels.len() == i,
                forall|k: int| 0 <= k < i ==> (#[trigger] labels@[k])@ == self.inner@[k].0@,
            decreases self.inner.len() - i,
        {
            labels.push(self.inner[i].0.clone());
            i += 1;
        }
        assert(labels@.map_values(|label: String| label@) =~= self.entries().map_values(
            |entry: (Seq<char>, Seq<char>)| entry.0,
        ));
        labels
    }

    /// The languages of the registered parsers, in the order of their
    /// labels.
    pub fn languages(&self) -> (languages: Vec<String>)
        ensures
            languages@.map_values(|language: String| language@) == self.entries().map_values(
                |entry: (Seq<char>, Seq<char>)| entry.1,
            ),
    {
        let mut languages: Vec<String> = Vec::new();
        let mut i: usize = 0;
        while i < self.inner.len()
            invariant
                i <= self.inner.len(),
                languages.len() == i,
                forall|k: int|
                    0 <= k < i ==> (#[trigger] languages@[k])@ == self.inner@[k].1.language@,
            decreases self.inner.len() - i,
        {
            languages.push(self.inner[i].1.language.clone());
            i += 1;
        }
        assert(languages@.map_values(|language: String| language@) =~= self.entries().map_values(
            |entry: (Seq<char>, Seq<char>)| entry.1,
        ));
        languages
    }

    /// Get a parser by label: the first with the label.
    pub fn get(&self, label: &str) -> (parser: Result<Parser, UnknownParser>)
        ensures
            match parser {
                Ok(parser) => exists|i: int|
                    0 <= i < self.inner.len() && (#[trigger] self.inner[i]).0@ == label@
                        && parser.language@ == self.inner[i].1.language@ && forall|k: int|
                        0 <= k < i ==> (#[trigger] self.inner[k]).0@ != label@,
                Err(error) => error.label@ == label@ && forall|k: int|
                    0 <= k < self.inner.len() ==> (#[trigger] self.inner[k]).0@ != label@,
            },
    {
        let mut i: usize = 0;
        while i < self.inner.len()
            invariant
                i <= self.inner.len(),
                forall|k: int| 0 <= k < i ==> (#[trigger] self.inner[k]).0@ != label@,
            decreases self.inner.len() - i,
        {
            if str_eq(self.inner[i].0.as_str(), label) {
                assert(self.inner[i as int].0@ == label@);
                return Ok(Parser { language: self.inner[i].1.language.clone() });
            }
            i += 1;
        }
        Err(UnknownParser { label: String::from_str(label) })
    }
}

/// List the languages supported by registered parsers
pub fn languages(parsers: &Parsers) -> (languages: Vec<String>)
    ensures
        languages@.map_values(|language: String| language@) == parsers.entries().map_values(
            |entry: (Seq<char>, Seq<char>)| entry.1,
        ),
{
    parsers.languages()
}

} // verus!
