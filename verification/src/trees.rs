use vstd::prelude::*;

verus! {

/// The tokens that the tree recogniser knows.
#[derive(Clone, Copy, Debug, PartialEq, Eq, Structural)]
pub enum TreeToken {
    Larch,
    Redwood,
    Fir,
    Chestnut,
    Pine,
    ExpandToLarch,
    Nothing,
}

/// What the recogniser says of each token.
pub open spec fn tree_text(tree: TreeToken) -> Seq<char> {
    match tree {
        TreeToken::Larch => "#1, the Larch."@,
        TreeToken::Redwood => "#2, the Mighty Redwood."@,
        TreeToken::Fir => "#3, the Fir."@,
        TreeToken::Chestnut => "#4, the Horse Chestnut."@,
        TreeToken::Pine => "#5, the Scots Pine."@,
        TreeToken::ExpandToLarch => "Expand To Larch!"@,
        TreeToken::Nothing => "Nothing Found!"@,
    }
}

/// Names a tree by its ranking.
pub fn recognise_tree(tree: TreeToken) -> (text: &'static str)
    ensures
        text@ == tree_text(tree),
{
    match tree {
        TreeToken::Larch => "#1, the Larch.",
        TreeToken::Redwood => "#2, the Mighty Redwood.",
        TreeToken::Fir => "#3, the Fir.",
        TreeToken::Chestnut => "#4, the Horse Chestnut.",
        TreeToken::Pine => "#5, the Scots Pine.",
        TreeToken::ExpandToLarch => "Expand To Larch!",
        TreeToken::Nothing => "Nothing Found!",
    }
}

/// The `@as_foo` form of the utility: its argument plus 5.
pub fn util_as_foo(e: i32) -> (r: i32)
    requires
        e + 5 <= i32::MAX,
    ensures
        r == e + 5,
{
    e + 5
}

/// The `@as_bar` form of the utility: its argument plus 10.
pub fn util_as_bar(e: i32) -> (r: i32)
    requires
        e + 10 <= i32::MAX,
    ensures
        r == e + 10,
{
    e + 10
}

/// The `@as_baz` form of the utility: zero.
pub fn util_as_baz() -> (r: usize)
    ensures
        r == 0,
{
    0usize
}

/// The utility with no argument: a fixed message.
pub fn util_default() -> (text: &'static str)
    ensures
        text@ == "Okay default applied"@,
{
    "Okay default applied"
}

} // verus!
