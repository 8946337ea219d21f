//! A package directive and the include line that it renders to.

use vstd::prelude::*;

verus! {

/// The parts joined into one sequence, with `sep` between neighbours.
pub open spec fn join(parts: Seq<Seq<char>>, sep: Seq<char>) -> Seq<char>
    decreases parts.len(),
{
    if parts.len() == 0 {
        Seq::empty()
    } else if parts.len() == 1 {
        parts[0]
    } else {
        join(parts.drop_last(), sep) + sep + parts.last()
    }
}

/// The keyword that opens an include line: `\usepackage`.
pub open spec fn include_keyword() -> Seq<char> {
    seq!['\\', 'u', 's', 'e', 'p', 'a', 'c', 'k', 'a', 'g', 'e']
}

/// The bracketed, comma-joined option list; nothing at all where there are no options.
pub open spec fn options_code(options: Seq<Seq<char>>) -> Seq<char> {
    if options.len() == 0 {
        Seq::empty()
    } else {
        seq!['['] + join(options, seq![',']) + seq![']']
    }
}

/// The include line of a package: keyword, options, and the name in braces.
pub open spec fn include_line(name: Seq<char>, options: Seq<Seq<char>>) -> Seq<char> {
    include_keyword() + options_code(options) + seq!['{'] + name + seq!['}']
}

/// The views of the string slices, in order.
pub open spec fn str_views(parts: Seq<&str>) -> Seq<Seq<char>> {
    Seq::new(parts.len(), |i: int| parts[i]@)
}

/// The parts joined into one string, with `sep` between neighbours.
pub fn join_strs(parts: &Vec<&str>, sep: &str) -> (joined: String)
    ensures
        joined@ == join(str_views(parts@), sep@),
{
    let n: usize = parts.len();
    if n == 0 {
        return String::new();
    }
    let ghost views = str_views(parts@);
    let mut joined = String::from_str(parts[0]);
    assert(views.subrange(0, 1) =~= seq![views[0]]);
    assert(join(views.subrange(0, 1), sep@) == views[0]);
    let mut i: usize = 1;
    while i < n
        invariant
            n == parts@.len(),
            views == str_views(parts@),
            1 <= i <= n,
            joined@ == join(views.subrange(0, i as int), sep@),
        decreases n - i,
    {
        joined.append(sep);
        joined.append(parts[i]);
        proof {
            let next = views.subrange(0, i + 1);
            assert(next.drop_last() =~= views.subrange(0, i as int));
            assert(next.last() == views[i as int]);
        }
        i = i + 1;
    }
    assert(views.subrange(0, n as int) =~= views);
    joined
}

/// What a directive is: a package name and its options, in order.
pub struct Directive {
    pub name: Seq<char>,
    pub options: Seq<Seq<char>>,
}

/// A package to include, with the options to include it with.
#[derive(Debug)]
pub struct Package<'a> {
    pub options: Vec<&'a str>,
    pub package_str: String,
}

impl<'a> View for Package<'a> {
    type V = Directive;

    open spec fn view(&self) -> Directive {
        Directive {
            name: self.package_str@,
            options: str_views(self.options@),
        }
    }
}

impl<'a> Package<'a> {
    /// The include line for this package.
    pub fn get_code(&self) -> (code: String)
        ensures
            code@ == include_line(self@.name, self@.options),
    {
        proof {
            reveal_strlit("\\usepackage");
            reveal_strlit("{");
            reveal_strlit("}");
        }
        let mut code = String::from_str("\\usepackage");
        assert(code@ =~= include_keyword());
        let options = self.get_options();
        code.append(options.as_str());
        code.append("{");
        assert("{"@ =~= seq!['{']);
        code.append(self.package_str.as_str());
        code.append("}");
        assert("}"@ =~= seq!['}']);
        code
    }

    /// The option list as it stands in the include line.
    pub fn get_options(&self) -> (code: String)
        ensures
            code@ == options_code(self@.options),
    {
        if self.options.len() == 0 {
            return String::new();
        }
        proof {
            reveal_strlit("[");
            reveal_strlit("]");
            reveal_strlit(",");
        }
        assert("["@ =~= seq!['[']);
        assert(","@ =~= seq![',']);
        assert("]"@ =~= seq![']']);
        let mut code = String::from_str("[");
        code.append(join_strs(&self.options, ",").as_str());
        code.append("]");
        code
    }
}

} // verus!
