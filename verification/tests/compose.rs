use latex_formula::error::RenderingError;
use latex_formula::formula::{compose, join_lines, package_lines, FormulaTemplate, Templates};
use latex_formula::package::Package;
use latex_formula::registry::Registry;
use latex_formula::template::{substitute, Substitution};

fn templates() -> Templates {
    Templates {
        document: Some(
            "\\documentclass{article}\n~PACKAGE_CODES~\n\\begin{document}\n~DOCUMENT_CONTENT~\n\\end{document}\n"
                .to_string(),
        ),
        display_formula: Some("\\[\n~FORMULA~\n\\]".to_string()),
        common_formula: Some("~FORMULA~".to_string()),
    }
}

fn package(name: &str, options: Vec<&'static str>) -> Package<'static> {
    Package { package_str: name.to_string(), options }
}

#[test]
fn substitute_replaces_the_token() {
    let subs = vec![Substitution { token: "~FORMULA~", value: "x^2" }];
    assert_eq!(substitute("$~FORMULA~$", &subs), "$x^2$");
}

#[test]
fn substitute_replaces_every_occurrence() {
    let subs = vec![Substitution { token: "~A~", value: "1" }];
    assert_eq!(substitute("~A~+~A~=~A~~A~", &subs), "1+1=11");
}

#[test]
fn substitute_without_a_token_in_the_template_changes_nothing() {
    let subs = vec![Substitution { token: "~A~", value: "1" }];
    assert_eq!(substitute("no token ~A here~", &subs), "no token ~A here~");
    assert_eq!(substitute("", &subs), "");
    assert_eq!(substitute("plain", &vec![]), "plain");
}

#[test]
fn substitute_does_not_fill_in_what_it_put_in() {
    let subs = vec![
        Substitution { token: "~A~", value: "~B~" },
        Substitution { token: "~B~", value: "~A~" },
    ];
    assert_eq!(substitute("~A~ ~B~", &subs), "~B~ ~A~");
    let grow = vec![Substitution { token: "a", value: "aa" }];
    assert_eq!(substitute("aba", &grow), "aabaa");
}

#[test]
fn substitute_does_not_join_value_and_template_into_a_token() {
    let subs = vec![Substitution { token: "ab", value: "a" }];
    assert_eq!(substitute("abb", &subs), "ab");
}

#[test]
fn substitute_takes_the_first_substitution_that_stands_at_an_offset() {
    let short_first = vec![
        Substitution { token: "~A", value: "1" },
        Substitution { token: "~A~", value: "2" },
    ];
    assert_eq!(substitute("~A~", &short_first), "1~");
    let long_first = vec![
        Substitution { token: "~A~", value: "2" },
        Substitution { token: "~A", value: "1" },
    ];
    assert_eq!(substitute("~A~ ~A", &long_first), "2 1");
}

#[test]
fn substitute_goes_on_behind_the_token() {
    let subs = vec![Substitution { token: "aa", value: "b" }];
    assert_eq!(substitute("aaa", &subs), "ba");
    assert_eq!(substitute("aaaa", &subs), "bb");
}

#[test]
fn substitute_ignores_an_empty_token() {
    let subs = vec![
        Substitution { token: "", value: "never" },
        Substitution { token: "x", value: "y" },
    ];
    assert_eq!(substitute("axa", &subs), "aya");
}

#[test]
fn substitute_with_an_empty_value_removes_the_token() {
    let subs = vec![Substitution { token: "~A~", value: "" }];
    assert_eq!(substitute("x~A~y", &subs), "xy");
}

#[test]
fn substitute_handles_characters_beyond_ascii() {
    let subs = vec![Substitution { token: "→", value: "⇒" }];
    assert_eq!(substitute("a→b→é", &subs), "a⇒b⇒é");
}

#[test]
fn package_lines_renders_each_package() {
    let packages = vec![package("alpha", vec![]), package("beta", vec!["all"])];
    assert_eq!(package_lines(&packages), vec!["\\usepackage{alpha}", "\\usepackage[all]{beta}"]);
    assert!(package_lines(&vec![]).is_empty());
}

#[test]
fn no_packages_give_an_empty_block() {
    assert_eq!(join_lines(&vec![]), "");
    let t = Templates {
        document: Some("A~PACKAGE_CODES~B".to_string()),
        display_formula: Some("~FORMULA~".to_string()),
        common_formula: None,
    };
    assert_eq!(compose("x", true, &vec![], &t), Ok("AB".to_string()));
}

#[test]
fn one_package_gives_a_block_without_newline() {
    assert_eq!(join_lines(&vec!["\\usepackage{a}".to_string()]), "\\usepackage{a}");
}

#[test]
fn two_packages_give_one_line_each() {
    let packages = vec![package("alpha", vec![]), package("beta", vec!["all"])];
    let t = Templates {
        document: Some("~PACKAGE_CODES~".to_string()),
        display_formula: Some("~FORMULA~".to_string()),
        common_formula: None,
    };
    let block = compose("x", true, &packages, &t).unwrap();
    assert_eq!(block, "\\usepackage{alpha}\n\\usepackage[all]{beta}");
    let lines: Vec<&str> = block.split('\n').collect();
    assert_eq!(lines.iter().filter(|l| **l == "\\usepackage{alpha}").count(), 1);
    assert_eq!(lines.iter().filter(|l| **l == "\\usepackage[all]{beta}").count(), 1);
    assert_eq!(lines.len(), 2);
}

#[test]
fn compose_in_math_mode_uses_the_display_wrapper() {
    let doc = compose("x^2", true, &vec![package("tikz", vec![])], &templates()).unwrap();
    assert_eq!(
        doc,
        "\\documentclass{article}\n\\usepackage{tikz}\n\\begin{document}\n\\[\nx^2\n\\]\n\\end{document}\n"
    );
}

#[test]
fn compose_in_text_mode_uses_the_common_wrapper() {
    let doc = compose("\\begin{tikzpicture}", false, &vec![], &templates()).unwrap();
    assert_eq!(
        doc,
        "\\documentclass{article}\n\n\\begin{document}\n\\begin{tikzpicture}\n\\end{document}\n"
    );
}

#[test]
fn compose_fills_the_formula_token_of_the_document_too() {
    let t = Templates {
        document: Some("% ~FORMULA~\n~DOCUMENT_CONTENT~".to_string()),
        display_formula: Some("$~FORMULA~$".to_string()),
        common_formula: Some("~FORMULA~".to_string()),
    };
    assert_eq!(compose("a", true, &vec![], &t), Ok("% a\n$a$".to_string()));
}

#[test]
fn compose_leaves_tokens_inside_the_formula_alone() {
    let t = Templates {
        document: Some("[~PACKAGE_CODES~] ~DOCUMENT_CONTENT~".to_string()),
        display_formula: Some("<~FORMULA~>".to_string()),
        common_formula: None,
    };
    let doc = compose("~PACKAGE_CODES~ ~FORMULA~", true, &vec![package("p", vec![])], &t);
    assert_eq!(doc, Ok("[\\usepackage{p}] <~PACKAGE_CODES~ ~FORMULA~>".to_string()));
}

#[test]
fn compose_is_the_same_for_the_same_inputs() {
    let packages = vec![package("a", vec!["x", "y"])];
    assert_eq!(
        compose("f", false, &packages, &templates()),
        compose("f", false, &packages, &templates())
    );
}

#[test]
fn missing_document_template_is_an_error() {
    let t = Templates { document: None, ..templates() };
    assert_eq!(compose("x", true, &vec![], &t), Err(RenderingError::MissingTemplate));
    assert_eq!(compose("x", false, &vec![], &t), Err(RenderingError::MissingTemplate));
}

#[test]
fn missing_wrapper_is_an_error_only_in_its_mode() {
    let no_display = Templates { display_formula: None, ..templates() };
    assert_eq!(compose("x", true, &vec![], &no_display), Err(RenderingError::MissingTemplate));
    assert!(compose("x", false, &vec![], &no_display).is_ok());
    let no_common = Templates { common_formula: None, ..templates() };
    assert_eq!(compose("x", false, &vec![], &no_common), Err(RenderingError::MissingTemplate));
    assert!(compose("x", true, &vec![], &no_common).is_ok());
}

#[test]
fn formula_template_after_inference() {
    let t = FormulaTemplate::inferred("$\\inline \\color{red} x$", &Registry::standard());
    assert_eq!(t.text, "$\\textstyle  \\color{red} x$");
    assert!(!t.is_math_mode());
    assert!(!t.has_baseline());
    assert_eq!(t.packages(), &vec!["\\usepackage{xcolor}".to_string()]);
    assert_eq!(t.text(), &t.text);
}

#[test]
fn formula_template_of_a_plain_formula() {
    let t = FormulaTemplate::new("a^2", &Registry::standard(), &templates()).unwrap();
    assert!(t.is_math_mode());
    assert!(t.packages().is_empty());
    assert_eq!(
        t.text,
        "\\documentclass{article}\n\n\\begin{document}\n\\[\na^2\n\\]\n\\end{document}\n"
    );
}

#[test]
fn formula_template_of_a_picture() {
    let formula = "\\begin{tikzpicture}\\addplot{x};\\end{tikzpicture}";
    let t = FormulaTemplate::new(formula, &Registry::standard(), &templates()).unwrap();
    assert!(!t.is_math_mode());
    assert_eq!(
        t.text,
        "\\documentclass{article}\n\\usepackage{tikz}\n\\usepackage{pgfplots}\n\\begin{document}\n\\begin{tikzpicture}\\addplot{x};\\end{tikzpicture}\n\\end{document}\n"
    );
}

#[test]
fn formula_template_needs_the_templates_of_its_mode() {
    let no_common = Templates { common_formula: None, ..templates() };
    let failed = FormulaTemplate::new("\\addplot", &Registry::standard(), &no_common);
    assert!(matches!(failed, Err(RenderingError::MissingTemplate)));
    assert!(FormulaTemplate::new("x", &Registry::standard(), &no_common).is_ok());
}

#[test]
fn construct_document_changes_nothing_on_error() {
    let mut t = FormulaTemplate::inferred("\\xymatrix{}", &Registry::standard());
    let none = Templates { document: None, display_formula: None, common_formula: None };
    assert_eq!(t.construct_document(&none), Err(RenderingError::MissingTemplate));
    assert_eq!(t.text, "\\xymatrix{}");
    assert!(t.is_math_mode());
    assert_eq!(t.packages(), &vec!["\\usepackage[all]{xy}".to_string()]);
    assert_eq!(t.construct_document(&templates()), Ok(()));
    assert_eq!(
        t.text,
        "\\documentclass{article}\n\\usepackage[all]{xy}\n\\begin{document}\n\\[\n\\xymatrix{}\n\\]\n\\end{document}\n"
    );
    assert_eq!(t.packages(), &vec!["\\usepackage[all]{xy}".to_string()]);
}
