use latex_formula::package::{join_strs, Package};

#[test]
fn basic_test() {
    let pack = Package {
        package_str: "Test package string".to_string(),
        options: vec!["foo", "bar"],
    };
    assert_eq!(
        &pack.get_code(),
        "\\usepackage[foo,bar]{Test package string}"
    );
}

#[test]
fn package_without_options_is_a_bare_include() {
    let pack = Package { package_str: "tikz".to_string(), options: vec![] };
    assert_eq!(pack.get_options(), "");
    assert_eq!(pack.get_code(), "\\usepackage{tikz}");
}

#[test]
fn package_with_one_option_has_no_comma() {
    let pack = Package { package_str: "xy".to_string(), options: vec!["all"] };
    assert_eq!(pack.get_options(), "[all]");
    assert_eq!(pack.get_code(), "\\usepackage[all]{xy}");
}

#[test]
fn package_with_three_options_keeps_their_order() {
    let pack = Package { package_str: "p".to_string(), options: vec!["c", "a", "b"] };
    assert_eq!(pack.get_options(), "[c,a,b]");
    assert_eq!(pack.get_code(), "\\usepackage[c,a,b]{p}");
}

#[test]
fn package_with_empty_name_renders_empty_braces() {
    let pack = Package { package_str: String::new(), options: vec![] };
    assert_eq!(pack.get_code(), "\\usepackage{}");
}

#[test]
fn package_with_an_empty_option_keeps_it() {
    let pack = Package { package_str: "p".to_string(), options: vec!["", "x"] };
    assert_eq!(pack.get_code(), "\\usepackage[,x]{p}");
}

#[test]
fn join_of_nothing_is_empty() {
    assert_eq!(join_strs(&vec![], ","), "");
}

#[test]
fn join_of_one_part_is_that_part() {
    assert_eq!(join_strs(&vec!["only"], ", "), "only");
}

#[test]
fn join_puts_the_separator_between_neighbours_only() {
    assert_eq!(join_strs(&vec!["a", "b", "c"], "--"), "a--b--c");
    assert_eq!(join_strs(&vec!["a", "", "c"], ","), "a,,c");
    assert_eq!(join_strs(&vec!["a", "b"], ""), "ab");
}
