use vstd::prelude::*;
use crate::models::device::strings_view;

verus! {

broadcast use vstd::string::group_string_axioms;

/// A program to run and its arguments: what the device tools are asked to do.
#[derive(Debug)]
pub struct CommandLine {
    pub program: String,
    pub args: Vec<String>,
}

/// A command line as plain values.
pub struct CommandView {
    pub program: Seq<char>,
    pub args: Seq<Seq<char>>,
}

impl View for CommandLine {
    type V = CommandView;

    open spec fn view(&self) -> CommandView {
        CommandView { program: self.program@, args: strings_view(self.args@) }
    }
}

pub open spec fn command_view(program: Seq<char>, args: Seq<Seq<char>>) -> CommandView {
    CommandView { program, args }
}

/// A command line running `program` with `args`.
pub fn command(program: &str, args: Vec<String>) -> (r: CommandLine)
    ensures
        r@ == command_view(program@, strings_view(args@)),
{
    CommandLine { program: String::from_str(program), args }
}

/// An owned copy of a string slice.
pub fn owned(s: &str) -> (r: String)
    ensures
        r@ == s@,
{
    String::from_str(s)
}

/// The strings of `v`, then `s`.
pub proof fn lemma_strings_view_push(v: Seq<String>, s: String)
    ensures
        strings_view(v.push(s)) == strings_view(v).push(s@),
{
    assert(strings_view(v.push(s)) =~= strings_view(v).push(s@));
}

/// A list of one argument.
pub fn args1(a: &str) -> (r: Vec<String>)
    ensures
        strings_view(r@) == seq![a@],
{
    let mut r: Vec<String> = Vec::new();
    r.push(owned(a));
    assert(strings_view(r@) =~= seq![a@]);
    r
}

/// A list of two arguments.
pub fn args2(a: &str, b: &str) -> (r: Vec<String>)
    ensures
        strings_view(r@) == seq![a@, b@],
{
    let mut r = args1(a);
    let x = owned(b);
    proof {
        lemma_strings_view_push(r@, x);
    }
    r.push(x);
    assert(strings_view(r@) =~= seq![a@, b@]);
    r
}

/// A list of three arguments.
pub fn args3(a: &str, b: &str, c: &str) -> (r: Vec<String>)
    ensures
        strings_view(r@) == seq![a@, b@, c@],
{
    let mut r = args2(a, b);
    let x = owned(c);
    proof {
        lemma_strings_view_push(r@, x);
    }
    r.push(x);
    assert(strings_view(r@) =~= seq![a@, b@, c@]);
    r
}

/// A list of four arguments.
pub fn args4(a: &str, b: &str, c: &str, d: &str) -> (r: Vec<String>)
    ensures
        strings_view(r@) == seq![a@, b@, c@, d@],
{
    let mut r = args3(a, b, c);
    let x = owned(d);
    proof {
        lemma_strings_view_push(r@, x);
    }
    r.push(x);
    assert(strings_view(r@) =~= seq![a@, b@, c@, d@]);
    r
}

/// A list of five arguments.
pub fn args5(a: &str, b: &str, c: &str, d: &str, e: &str) -> (r: Vec<String>)
    ensures
        strings_view(r@) == seq![a@, b@, c@, d@, e@],
{
    let mut r = args4(a, b, c, d);
    let x = owned(e);
    proof {
        lemma_strings_view_push(r@, x);
    }
    r.push(x);
    assert(strings_view(r@) =~= seq![a@, b@, c@, d@, e@]);
    r
}

/// Appends the strings of `more` to `v`.
pub fn extend_strings(v: &mut Vec<String>, more: &Vec<String>)
    ensures
        strings_view(final(v)@) == strings_view(old(v)@) + strings_view(more@),
{
    let ghost v0 = strings_view(v@);
    for i in 0..more.len()
        invariant
            strings_view(v@) == v0 + strings_view(more@).take(i as int),
    {
        let x = owned(more[i].as_str());
        proof {
            lemma_strings_view_push(v@, x);
        }
        v.push(x);
        assert(v0 + strings_view(more@).take(i + 1) =~= (v0 + strings_view(more@).take(i as int)).push(x@));
    }
    assert(strings_view(more@).take(more.len() as int) =~= strings_view(more@));
}

} // verus!
