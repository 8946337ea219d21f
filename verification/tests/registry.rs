use latex_formula::registry::{Registry, Trigger};

fn pairs(triggers: &Vec<Trigger>) -> Vec<(String, String)> {
    triggers.iter().map(|t| (t.token.clone(), t.package.clone())).collect()
}

fn pair(token: &str, package: &str) -> (String, String) {
    (token.to_string(), package.to_string())
}

#[test]
fn standard_environments() {
    assert_eq!(
        pairs(&Registry::standard().environments),
        vec![
            pair("eqnarray", "eqnarray"),
            pair("tikzcd", "tikz-cd"),
            pair("tikzpicture", "tikz"),
            pair("circuitikz", "circuitikz"),
            pair("sequencediagram", "pgf-umlsd"),
            pair("prooftree", "bussproofs"),
            pair("align", ""),
        ]
    );
}

#[test]
fn standard_commands() {
    assert_eq!(
        pairs(&Registry::standard().commands),
        vec![
            pair("\\addplot", "pgfplots"),
            pair("\\smartdiagram", "smartdiagram"),
            pair("\\DisplayProof", "bussproofs"),
            pair("\\tdplotsetmaincoords", "tikz-3dplot"),
        ]
    );
}

#[test]
fn standard_inline_commands() {
    assert_eq!(
        pairs(&Registry::standard().inline_commands),
        vec![
            pair("\\color", "xcolor"),
            pair("\\textcolor", "xcolor"),
            pair("\\colorbox", "xcolor"),
            pair("\\pagecolor", "xcolor"),
        ]
    );
}

#[test]
fn trigger_new_keeps_token_and_package() {
    let t = Trigger::new("\\plot", "pgfplots");
    assert_eq!(t.token, "\\plot");
    assert_eq!(t.package, "pgfplots");
}
