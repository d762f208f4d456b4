//! The data the custom widgets display. Drawing them is the terminal
//! collaborator's work.

use crate::drift::{severity_label, DriftSeverity};
use vstd::prelude::*;
use vstd::string::StringExecFns;

verus! {

/// A side-by-side comparison of two texts.
#[derive(Debug, Clone)]
pub struct DiffView<'a> {
    /// Title of the left side.
    pub left_title: &'a str,
    /// Content of the left side.
    pub left_content: &'a str,
    /// Title of the right side.
    pub right_title: &'a str,
    /// Content of the right side.
    pub right_content: &'a str,
}

impl<'a> DiffView<'a> {
    /// Create a new diff view.
    pub fn new(
        left_title: &'a str,
        left_content: &'a str,
        right_title: &'a str,
        right_content: &'a str,
    ) -> (r: DiffView<'a>)
        ensures
            r.left_title@ == left_title@,
            r.left_content@ == left_content@,
            r.right_title@ == right_title@,
            r.right_content@ == right_content@,
    {
        DiffView { left_title, left_content, right_title, right_content }
    }
}

/// A severity badge.
#[derive(Debug, Clone, Copy)]
pub struct SeverityBadge {
    /// The severity it shows.
    pub severity: DriftSeverity,
}

impl SeverityBadge {
    /// Create a new severity badge.
    pub fn new(severity: DriftSeverity) -> (r: SeverityBadge)
        ensures
            r.severity == severity,
    {
        SeverityBadge { severity }
    }

    /// The badge text: the severity's name between spaces.
    pub fn label(&self) -> (r: String)
        ensures
            r@ == " "@ + severity_label(self.severity) + " "@,
    {
        let mut s = String::from_str(" ");
        s.append(self.severity.label().as_str());
        s.append(" ");
        s
    }
}

/// A code block with rendering hints.
#[derive(Debug, Clone)]
pub struct CodeBlock<'a> {
    /// The code to show.
    pub content: &'a str,
    /// Language hint, if any.
    pub language: Option<&'a str>,
    /// Whether to show line numbers.
    pub line_numbers: bool,
}

impl<'a> CodeBlock<'a> {
    /// Create a new code block without hints.
    pub fn new(content: &'a str) -> (r: CodeBlock<'a>)
        ensures
            r.content@ == content@,
            r.language is None,
            !r.line_numbers,
    {
        CodeBlock { content, language: None, line_numbers: false }
    }

    /// Set the language hint.
    pub fn language(self, lang: &'a str) -> (r: CodeBlock<'a>)
        ensures
            r.content@ == self.content@,
            r.language matches Some(l) && l@ == lang@,
            r.line_numbers == self.line_numbers,
    {
        CodeBlock { language: Some(lang), ..self }
    }

    /// Set whether to show line numbers.
    pub fn line_numbers(self, show: bool) -> (r: CodeBlock<'a>)
        ensures
            r.content@ == self.content@,
            r.language == self.language,
            r.line_numbers == show,
    {
        CodeBlock { line_numbers: show, ..self }
    }
}

/// A row of keyboard shortcut hints.
#[derive(Debug, Clone)]
pub struct KeyHints<'a> {
    /// The hints: a key and its description.
    pub hints: Vec<(&'a str, &'a str)>,
}

impl<'a> KeyHints<'a> {
    /// Create a new row of hints.
    pub fn new(hints: Vec<(&'a str, &'a str)>) -> (r: KeyHints<'a>)
        ensures
            r.hints == hints,
    {
        KeyHints { hints }
    }
}

} // verus!
