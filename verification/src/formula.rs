//! Composing a formula into a complete document.

use crate::error::RenderingError;
use crate::inference::{collect, directives, infer, math_mode, rules, transformed};
use crate::package::{include_line, join, join_strs, str_views, Directive, Package};
use crate::registry::Registry;
use crate::template::{bindings, filled, substitute, Binding, Substitution};
use vstd::prelude::*;

verus! {

/// The placeholder for the formula's text.
pub open spec fn formula_token() -> Seq<char> {
    "~FORMULA~"@
}

/// The placeholder for the wrapped formula, the body of the document.
pub open spec fn content_token() -> Seq<char> {
    "~DOCUMENT_CONTENT~"@
}

/// The placeholder for the include lines.
pub open spec fn packages_token() -> Seq<char> {
    "~PACKAGE_CODES~"@
}

/// The include lines of the directives, in order.
pub open spec fn include_lines(found: Seq<Directive>) -> Seq<Seq<char>> {
    Seq::new(found.len(), |i: int| include_line(found[i].name, found[i].options))
}

/// The include lines as one block, a newline between neighbours.
pub open spec fn package_block(lines: Seq<Seq<char>>) -> Seq<char> {
    join(lines, seq!['\n'])
}

/// The formula inside its wrapper.
pub open spec fn wrapped(wrapper: Seq<char>, text: Seq<char>) -> Seq<char> {
    filled(wrapper, seq![Binding { token: formula_token(), value: text }])
}

/// The complete document: the document template with the include lines, the
/// wrapped formula and the formula's text in the places of their tokens.
pub open spec fn document(
    template: Seq<char>,
    wrapper: Seq<char>,
    text: Seq<char>,
    lines: Seq<Seq<char>>,
) -> Seq<char> {
    filled(
        template,
        seq![
            Binding { token: packages_token(), value: package_block(lines) },
            Binding { token: content_token(), value: wrapped(wrapper, text) },
            Binding { token: formula_token(), value: text },
        ],
    )
}

/// Without packages the block of include lines is empty: no line, and no
/// newline either.
pub proof fn lemma_no_packages_empty_block()
    ensures
        package_block(include_lines(Seq::<Directive>::empty())) == Seq::<char>::empty(),
{
}

/// With one package the block is its include line; each further package
/// adds a newline and its own line.
pub proof fn lemma_package_block_grows(found: Seq<Directive>, d: Directive)
    ensures
        package_block(include_lines(found.push(d))) == if found.len() == 0 {
            include_line(d.name, d.options)
        } else {
            package_block(include_lines(found)) + seq!['\n'] + include_line(d.name, d.options)
        },
{
    let lines = include_lines(found.push(d));
    assert(lines.drop_last() =~= include_lines(found));
    assert(lines.last() == include_line(d.name, d.options));
}

/// The three templates as they were loaded. One that could not be loaded is `None`.
#[derive(Debug)]
pub struct Templates {
    /// The document, with the places for the include lines and the body.
    pub document: Option<String>,
    /// The wrapper of a formula in math mode.
    pub display_formula: Option<String>,
    /// The wrapper of a formula in text mode.
    pub common_formula: Option<String>,
}

impl Templates {
    /// The wrapper that the mode selects.
    pub open spec fn wrapper(&self, is_math_mode: bool) -> Option<String> {
        if is_math_mode {
            self.display_formula
        } else {
            self.common_formula
        }
    }

    /// Every template that a document in this mode refers to is there.
    pub open spec fn complete_for(&self, is_math_mode: bool) -> bool {
        self.document is Some && self.wrapper(is_math_mode) is Some
    }
}

/// The views of the strings, in order.
pub open spec fn string_views(lines: Seq<String>) -> Seq<Seq<char>> {
    Seq::new(lines.len(), |i: int| lines[i]@)
}

/// The include line of each package, in order.
pub fn package_lines(packages: &Vec<Package<'_>>) -> (lines: Vec<String>)
    ensures
        string_views(lines@) == include_lines(directives(packages@)),
{
    let mut lines: Vec<String> = Vec::new();
    let mut i: usize = 0;
    while i < packages.len()
        invariant
            i <= packages.len(),
            lines@.len() == i,
            forall|k: int|
                0 <= k < i ==> (#[trigger] lines@[k])@ == include_line(
                    packages@[k]@.name,
                    packages@[k]@.options,
                ),
        decreases packages.len() - i,
    {
        lines.push(packages[i].get_code());
        i = i + 1;
    }
    assert(string_views(lines@) =~= include_lines(directives(packages@)));
    lines
}

/// The lines as one block, a newline between neighbours. No lines give the
/// empty string.
pub fn join_lines(lines: &Vec<String>) -> (block: String)
    ensures
        block@ == package_block(string_views(lines@)),
        lines@.len() == 0 ==> block@ == Seq::<char>::empty(),
{
    proof {
        reveal_strlit("\n");
    }
    assert("\n"@ =~= seq!['\n']);
    let mut parts: Vec<&str> = Vec::new();
    let mut i: usize = 0;
    while i < lines.len()
        invariant
            i <= lines.len(),
            parts@.len() == i,
            forall|k: int| 0 <= k < i ==> (#[trigger] parts@[k])@ == lines@[k]@,
        decreases lines.len() - i,
    {
        parts.push(lines[i].as_str());
        i = i + 1;
    }
    assert(str_views(parts@) =~= string_views(lines@));
    join_strs(&parts, "\n")
}

/// Composes the document from text, mode and include lines.
fn compose_lines(text: &str, is_math_mode: bool, lines: &Vec<String>, templates: &Templates) -> (out:
    Result<String, RenderingError>)
    ensures
        match out {
            Ok(composed) => templates.complete_for(is_math_mode) && composed@ == document(
                templates.document->0@,
                templates.wrapper(is_math_mode)->0@,
                text@,
                string_views(lines@),
            ),
            Err(error) => error == RenderingError::MissingTemplate && !templates.complete_for(
                is_math_mode,
            ),
        },
{
    let template = match &templates.document {
        Some(template) => template,
        None => {
            return Err(RenderingError::MissingTemplate);
        },
    };
    let chosen = if is_math_mode {
        &templates.display_formula
    } else {
        &templates.common_formula
    };
    let wrapper = match chosen {
        Some(wrapper) => wrapper,
        None => {
            return Err(RenderingError::MissingTemplate);
        },
    };
    let mut inner: Vec<Substitution<'_>> = Vec::new();
    inner.push(Substitution { token: "~FORMULA~", value: text });
    assert(bindings(inner@) =~= seq![Binding { token: formula_token(), value: text@ }]);
    let body = substitute(wrapper.as_str(), &inner);
    let block = join_lines(lines);
    let mut outer: Vec<Substitution<'_>> = Vec::new();
    outer.push(Substitution { token: "~PACKAGE_CODES~", value: block.as_str() });
    outer.push(Substitution { token: "~DOCUMENT_CONTENT~", value: body.as_str() });
    outer.push(Substitution { token: "~FORMULA~", value: text });
    assert(bindings(outer@) =~= seq![
        Binding { token: packages_token(), value: package_block(string_views(lines@)) },
        Binding { token: content_token(), value: wrapped(wrapper@, text@) },
        Binding { token: formula_token(), value: text@ },
    ]);
    Ok(substitute(template.as_str(), &outer))
}

/// Composes the complete document from the formula's text, its mode and its
/// packages. It fails with `MissingTemplate` exactly if the document template
/// or the wrapper that the mode selects is not there.
pub fn compose(text: &str, is_math_mode: bool, packages: &Vec<Package<'_>>, templates: &Templates) -> (out:
    Result<String, RenderingError>)
    ensures
        match out {
            Ok(composed) => templates.complete_for(is_math_mode) && composed@ == document(
                templates.document->0@,
                templates.wrapper(is_math_mode)->0@,
                text@,
                include_lines(directives(packages@)),
            ),
            Err(error) => error == RenderingError::MissingTemplate && !templates.complete_for(
                is_math_mode,
            ),
        },
{
    let lines = package_lines(packages);
    compose_lines(text, is_math_mode, &lines, templates)
}

/// What a formula template holds.
pub struct FormulaView {
    pub text: Seq<char>,
    pub has_baseline: bool,
    pub is_math_mode: bool,
    pub packages: Seq<Seq<char>>,
}

/// A formula on its way to a document: after inference `text` is the formula
/// after the inline transform, after composition it is the whole document.
#[derive(Debug)]
pub struct FormulaTemplate {
    pub text: String,
    has_baseline: bool,
    is_math_mode: bool,
    packages: Vec<String>,
}

impl View for FormulaTemplate {
    type V = FormulaView;

    closed spec fn view(&self) -> FormulaView {
        FormulaView {
            text: self.text@,
            has_baseline: self.has_baseline,
            is_math_mode: self.is_math_mode,
            packages: string_views(self.packages@),
        }
    }
}

impl FormulaTemplate {
    /// The formula as inference leaves it: its text after the inline
    /// transform, its mode, and the include line of each package it needs.
    pub fn inferred(formula: &str, registry: &Registry) -> (template: FormulaTemplate)
        ensures
            template@ == (FormulaView {
                text: transformed(formula@),
                has_baseline: false,
                is_math_mode: math_mode(rules(registry@), formula@),
                packages: include_lines(collect(rules(registry@), formula@)),
            }),
    {
        let found = infer(formula, registry);
        let packages = package_lines(&found.packages);
        FormulaTemplate {
            has_baseline: false,
            is_math_mode: found.is_math_mode,
            text: found.text,
            packages,
        }
    }

    /// Puts the whole document in the place of the text. Where a template is
    /// missing, nothing changes.
    pub fn construct_document(&mut self, templates: &Templates) -> (out: Result<(), RenderingError>)
        ensures
            match out {
                Ok(()) => templates.complete_for(old(self)@.is_math_mode) && final(self)@ == (
                FormulaView {
                    text: document(
                        templates.document->0@,
                        templates.wrapper(old(self)@.is_math_mode)->0@,
                        old(self)@.text,
                        old(self)@.packages,
                    ),
                    ..old(self)@
                }),
                Err(error) => error == RenderingError::MissingTemplate && !templates.complete_for(
                    old(self)@.is_math_mode,
                ) && *final(self) == *old(self),
            },
    {
        match compose_lines(self.text.as_str(), self.is_math_mode, &self.packages, templates) {
            Ok(composed) => {
                self.text = composed;
                Ok(())
            },
            Err(error) => Err(error),
        }
    }

    /// The document of a formula: inference, then composition. It fails with
    /// `MissingTemplate` exactly if the document template or the wrapper that
    /// the formula's mode selects is not there.
    pub fn new(formula: &str, registry: &Registry, templates: &Templates) -> (out: Result<
        FormulaTemplate,
        RenderingError,
    >)
        ensures
            match out {
                Ok(template) => {
                    let is_math_mode = math_mode(rules(registry@), formula@);
                    let lines = include_lines(collect(rules(registry@), formula@));
                    &&& templates.complete_for(is_math_mode)
                    &&& template@ == (FormulaView {
                        text: document(
                            templates.document->0@,
                            templates.wrapper(is_math_mode)->0@,
                            transformed(formula@),
                            lines,
                        ),
                        has_baseline: false,
                        is_math_mode,
                        packages: lines,
                    })
                },
                Err(error) => error == RenderingError::MissingTemplate && !templates.complete_for(
                    math_mode(rules(registry@), formula@),
                ),
            },
    {
        let mut template = FormulaTemplate::inferred(formula, registry);
        match template.construct_document(templates) {
            Ok(()) => Ok(template),
            Err(error) => Err(error),
        }
    }

    /// The text: the formula after inference, the document after composition.
    pub fn text(&self) -> (text: &String)
        ensures
            text@ == self@.text,
    {
        &self.text
    }

    /// Whether the formula is typeset in math mode.
    pub fn is_math_mode(&self) -> (mode: bool)
        ensures
            mode == self@.is_math_mode,
    {
        self.is_math_mode
    }

    /// Whether the formula has a baseline of its own.
    pub fn has_baseline(&self) -> (baseline: bool)
        ensures
            baseline == self@.has_baseline,
    {
        self.has_baseline
    }

    /// The include lines of the packages that the formula needs.
    pub fn packages(&self) -> (lines: &Vec<String>)
        ensures
            string_views(lines@) == self@.packages,
    {
        &self.packages
    }
}

} // verus!
