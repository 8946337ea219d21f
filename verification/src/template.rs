//! Filling a template: each placeholder token gives way to its value, in one
//! pass over the template, and what was put in is never looked at again.

use crate::text::{matches_at, occurs_at, to_chars};
use vstd::prelude::*;

verus! {

/// What a substitution is: a placeholder token and the value that takes its place.
pub struct Binding {
    pub token: Seq<char>,
    pub value: Seq<char>,
}

/// A placeholder token and the value that takes its place.
#[derive(Debug)]
pub struct Substitution<'a> {
    pub token: &'a str,
    pub value: &'a str,
}

impl<'a> View for Substitution<'a> {
    type V = Binding;

    open spec fn view(&self) -> Binding {
        Binding { token: self.token@, value: self.value@ }
    }
}

/// The views of the substitutions, in order.
pub open spec fn bindings<'a>(substitutions: Seq<Substitution<'a>>) -> Seq<Binding> {
    Seq::new(substitutions.len(), |i: int| substitutions[i]@)
}

/// The token of binding `b` stands in the template at offset `i`. An empty
/// token stands nowhere.
pub open spec fn fires(template: Seq<char>, bindings: Seq<Binding>, i: int, b: int) -> bool {
    &&& 0 <= b < bindings.len()
    &&& bindings[b].token.len() > 0
    &&& occurs_at(template, bindings[b].token, i)
}

/// The template from offset `i` on, filled in, where the bindings before `b`
/// are known not to stand at `i`: the first binding whose token stands at an
/// offset puts its value there and the pass goes on behind the token; where
/// none does, the character stays.
pub open spec fn filled_from(template: Seq<char>, bindings: Seq<Binding>, i: int, b: int) -> Seq<
    char,
>
    decreases template.len() - i, bindings.len() - b,
{
    if i < 0 || b < 0 || i >= template.len() {
        Seq::empty()
    } else if b >= bindings.len() {
        seq![template[i]] + filled_from(template, bindings, i + 1, 0)
    } else if fires(template, bindings, i, b) {
        bindings[b].value + filled_from(template, bindings, i + bindings[b].token.len(), 0)
    } else {
        filled_from(template, bindings, i, b + 1)
    }
}

/// The template with every placeholder filled in.
pub open spec fn filled(template: Seq<char>, bindings: Seq<Binding>) -> Seq<char> {
    filled_from(template, bindings, 0, 0)
}

/// Bindings that do not stand at an offset are passed over.
proof fn lemma_pass_over(template: Seq<char>, bindings: Seq<Binding>, i: int, from: int, to: int)
    requires
        0 <= i < template.len(),
        0 <= from <= to <= bindings.len(),
        forall|c: int| from <= c < to ==> !fires(template, bindings, i, c),
    ensures
        filled_from(template, bindings, i, from) == filled_from(template, bindings, i, to),
    decreases to - from,
{
    if from < to {
        lemma_pass_over(template, bindings, i, from + 1, to);
    }
}

/// A template in which no token stands comes out as it went in.
pub proof fn lemma_filled_plain(template: Seq<char>, bindings: Seq<Binding>)
    requires
        forall|i: int, b: int| !fires(template, bindings, i, b),
    ensures
        filled(template, bindings) == template,
{
    lemma_plain_from(template, bindings, 0);
    assert(template.subrange(0, template.len() as int) =~= template);
}

proof fn lemma_plain_from(template: Seq<char>, bindings: Seq<Binding>, i: int)
    requires
        0 <= i <= template.len(),
        forall|i: int, b: int| !fires(template, bindings, i, b),
    ensures
        filled_from(template, bindings, i, 0) == template.subrange(i, template.len() as int),
    decreases template.len() - i,
{
    if i < template.len() {
        lemma_pass_over(template, bindings, i, 0, bindings.len() as int);
        lemma_plain_from(template, bindings, i + 1);
        assert(seq![template[i]] + template.subrange(i + 1, template.len() as int)
            =~= template.subrange(i, template.len() as int));
    } else {
        assert(template.subrange(i, template.len() as int) =~= Seq::<char>::empty());
    }
}

/// A template that is nothing but a token, and that no earlier token opens,
/// comes out as that token's value, whatever the value holds: what was put in
/// is not filled in again.
pub proof fn lemma_filled_token(bindings: Seq<Binding>, b: int)
    requires
        0 <= b < bindings.len(),
        bindings[b].token.len() > 0,
        forall|c: int| 0 <= c < b ==> !fires(bindings[b].token, bindings, 0, c),
    ensures
        filled(bindings[b].token, bindings) == bindings[b].value,
{
    let template = bindings[b].token;
    assert(template.subrange(0, template.len() as int) =~= template);
    assert(fires(template, bindings, 0, b));
    lemma_pass_over(template, bindings, 0, 0, b);
    assert(filled_from(template, bindings, template.len() as int, 0) =~= Seq::<char>::empty());
    assert(bindings[b].value + Seq::<char>::empty() =~= bindings[b].value);
}

/// No token reaches across the border between `a` and `b` in `a + b`.
pub open spec fn border_clear(a: Seq<char>, b: Seq<char>, bindings: Seq<Binding>) -> bool {
    forall|i: int, c: int|
        0 <= i < a.len() && fires(a + b, bindings, i, c) ==> i + bindings[c].token.len() <= a.len()
}

proof fn lemma_fires_behind(a: Seq<char>, b: Seq<char>, bindings: Seq<Binding>, j: int, c: int)
    requires
        0 <= j,
    ensures
        fires(a + b, bindings, a.len() + j, c) <==> fires(b, bindings, j, c),
{
    if 0 <= c < bindings.len() {
        let token = bindings[c].token;
        if j + token.len() <= b.len() {
            assert((a + b).subrange(a.len() + j, a.len() + j + token.len()) =~= b.subrange(
                j,
                j + token.len(),
            ));
        }
    }
}

proof fn lemma_fires_before(a: Seq<char>, b: Seq<char>, bindings: Seq<Binding>, i: int, c: int)
    requires
        0 <= i < a.len(),
        border_clear(a, b, bindings),
    ensures
        fires(a + b, bindings, i, c) <==> fires(a, bindings, i, c),
{
    if 0 <= c < bindings.len() {
        let token = bindings[c].token;
        if i + token.len() <= a.len() {
            assert((a + b).subrange(i, i + token.len()) =~= a.subrange(i, i + token.len()));
        }
    }
}

proof fn lemma_filled_behind(a: Seq<char>, b: Seq<char>, bindings: Seq<Binding>, j: int, k: int)
    requires
        0 <= j <= b.len(),
        0 <= k <= bindings.len(),
    ensures
        filled_from(a + b, bindings, a.len() + j, k) == filled_from(b, bindings, j, k),
    decreases b.len() - j, bindings.len() - k,
{
    if j < b.len() {
        if k >= bindings.len() {
            lemma_filled_behind(a, b, bindings, j + 1, 0);
        } else {
            lemma_fires_behind(a, b, bindings, j, k);
            if fires(b, bindings, j, k) {
                lemma_filled_behind(a, b, bindings, j + bindings[k].token.len(), 0);
            } else {
                lemma_filled_behind(a, b, bindings, j, k + 1);
            }
        }
    }
}

proof fn lemma_filled_before(a: Seq<char>, b: Seq<char>, bindings: Seq<Binding>, i: int, k: int)
    requires
        0 <= i <= a.len(),
        0 <= k <= bindings.len(),
        i == a.len() ==> k == 0,
        border_clear(a, b, bindings),
    ensures
        filled_from(a + b, bindings, i, k) == filled_from(a, bindings, i, k) + filled(b, bindings),
    decreases a.len() - i, bindings.len() - k,
{
    if i == a.len() {
        lemma_filled_behind(a, b, bindings, 0, 0);
        assert(Seq::<char>::empty() + filled(b, bindings) =~= filled(b, bindings));
    } else if k >= bindings.len() {
        lemma_filled_before(a, b, bindings, i + 1, 0);
        assert(seq![a[i]] + (filled_from(a, bindings, i + 1, 0) + filled(b, bindings)) =~= (seq![
            a[i],
        ] + filled_from(a, bindings, i + 1, 0)) + filled(b, bindings));
    } else {
        lemma_fires_before(a, b, bindings, i, k);
        if fires(a, bindings, i, k) {
            let width = bindings[k].token.len();
            lemma_filled_before(a, b, bindings, i + width, 0);
            assert(bindings[k].value + (filled_from(a, bindings, i + width, 0) + filled(
                b,
                bindings,
            )) =~= (bindings[k].value + filled_from(a, bindings, i + width, 0)) + filled(
                b,
                bindings,
            ));
        } else {
            lemma_filled_before(a, b, bindings, i, k + 1);
        }
    }
}

/// Filling is local: where no token reaches across the border between two
/// pieces of a template, the template is filled piece by piece.
pub proof fn lemma_filled_concat(a: Seq<char>, b: Seq<char>, bindings: Seq<Binding>)
    requires
        border_clear(a, b, bindings),
    ensures
        filled(a + b, bindings) == filled(a, bindings) + filled(b, bindings),
{
    lemma_filled_before(a, b, bindings, 0, 0);
}

/// The first binding whose token stands in the template at offset `i`.
fn firing(template: &Vec<char>, tokens: &Vec<Vec<char>>, i: usize, Ghost(bs): Ghost<Seq<Binding>>) -> (found:
    Option<usize>)
    requires
        tokens@.len() == bs.len(),
        forall|b: int| 0 <= b < bs.len() ==> (#[trigger] tokens@[b])@ == bs[b].token,
    ensures
        match found {
            Some(b) => fires(template@, bs, i as int, b as int) && forall|c: int|
                0 <= c < b ==> !fires(template@, bs, i as int, c),
            None => forall|c: int| 0 <= c < bs.len() ==> !fires(template@, bs, i as int, c),
        },
{
    let mut b: usize = 0;
    while b < tokens.len()
        invariant
            b <= tokens.len(),
            tokens@.len() == bs.len(),
            forall|b: int| 0 <= b < bs.len() ==> (#[trigger] tokens@[b])@ == bs[b].token,
            forall|c: int| 0 <= c < b ==> !fires(template@, bs, i as int, c),
        decreases tokens.len() - b,
    {
        assert(tokens@[b as int]@ == bs[b as int].token);
        if tokens[b].len() > 0 && matches_at(template, &tokens[b], i) {
            return Some(b);
        }
        b = b + 1;
    }
    None
}

/// Fills the template in: one pass from left to right, in which the first
/// substitution whose token stands at an offset puts its value there. Values
/// go in as they are, and a substitution with an empty token does nothing.
pub fn substitute(template: &str, substitutions: &Vec<Substitution<'_>>) -> (out: String)
    ensures
        out@ == filled(template@, bindings(substitutions@)),
{
    let ghost bs = bindings(substitutions@);
    let chars = to_chars(template);
    let n: usize = chars.len();
    let mut tokens: Vec<Vec<char>> = Vec::new();
    let mut k: usize = 0;
    while k < substitutions.len()
        invariant
            k <= substitutions.len(),
            bs == bindings(substitutions@),
            tokens@.len() == k,
            forall|b: int| 0 <= b < k ==> (#[trigger] tokens@[b])@ == bs[b].token,
        decreases substitutions.len() - k,
    {
        tokens.push(to_chars(substitutions[k].token));
        k = k + 1;
    }
    let mut out = String::new();
    let mut start: usize = 0;
    let mut i: usize = 0;
    assert(out@ + chars@.subrange(0, 0) + filled_from(chars@, bs, 0, 0) =~= filled(chars@, bs));
    while i < n
        invariant
            n == chars@.len(),
            chars@ == template@,
            start <= i <= n,
            bs == bindings(substitutions@),
            tokens@.len() == bs.len(),
            forall|b: int| 0 <= b < bs.len() ==> (#[trigger] tokens@[b])@ == bs[b].token,
            out@ + chars@.subrange(start as int, i as int) + filled_from(chars@, bs, i as int, 0)
                == filled(chars@, bs),
        decreases n - i,
    {
        let ghost rest = filled_from(chars@, bs, i as int, 0);
        match firing(&chars, &tokens, i, Ghost(bs)) {
            Some(b) => {
                let ghost run = chars@.subrange(start as int, i as int);
                let ghost before = out@;
                proof {
                    lemma_pass_over(chars@, bs, i as int, 0, b as int);
                }
                let width: usize = tokens[b].len();
                assert(width == bs[b as int].token.len());
                out.append(template.substring_char(start, i));
                out.append(substitutions[b].value);
                i = i + width;
                start = i;
                proof {
                    let after = filled_from(chars@, bs, i as int, 0);
                    assert(rest == bs[b as int].value + after);
                    assert(chars@.subrange(start as int, i as int) =~= Seq::<char>::empty());
                    assert(out@ + chars@.subrange(start as int, i as int) + after =~= before + run
                        + rest);
                }
            },
            None => {
                proof {
                    lemma_pass_over(chars@, bs, i as int, 0, bs.len() as int);
                    let after = filled_from(chars@, bs, i + 1, 0);
                    assert(rest == seq![chars@[i as int]] + after);
                    assert(out@ + chars@.subrange(start as int, i + 1) + after =~= out@
                        + chars@.subrange(start as int, i as int) + rest);
                }
                i = i + 1;
            },
        }
    }
    out.append(template.substring_char(start, n));
    assert(filled_from(chars@, bs, n as int, 0) =~= Seq::<char>::empty());
    assert(out@ =~= filled(chars@, bs));
    out
}

} // verus!
