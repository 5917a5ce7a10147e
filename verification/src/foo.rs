use vstd::prelude::*;

verus! {

/// A pair of strings: `foo` is public, `bar` is only reachable through [`get_bar`].
#[derive(Debug)]
pub struct Bar {
    pub foo: String,
    bar: String,
}

impl View for Bar {
    /// The text of `foo` and of `bar`, in that order.
    type V = (Seq<char>, Seq<char>);

    closed spec fn view(&self) -> (Seq<char>, Seq<char>) {
        (self.foo@, self.bar@)
    }
}

impl Bar {
    /// Builds a pair from its two parts.
    pub fn new(foo: String, bar: String) -> (res: Self)
        ensures
            res@ == (foo@, bar@),
    {
        Bar { foo: foo, bar: bar }
    }
}

/// The hidden part of a pair.
pub fn get_bar(bar: &Bar) -> (res: &String)
    ensures
        res@ == bar@.1,
{
    &bar.bar
}

} // verus!
