use vstd::prelude::*;

verus! {

/// A number with a one-up operation.
pub struct Number {
    pub value: usize,
}

/// Types that can report their value and the value one above it.
pub trait AddOne {
    type SelfType;

    /// Whether the value one above can be represented.
    spec fn can_add_one(&self) -> bool;

    /// The value plus one.
    fn add_one(&self) -> Self::SelfType
        requires
            self.can_add_one(),
    ;

    /// The value itself.
    fn value(&self) -> Self::SelfType;
}

impl AddOne for Number {
    type SelfType = usize;

    open spec fn can_add_one(&self) -> bool {
        self.value < usize::MAX
    }

    fn add_one(&self) -> (r: usize)
        ensures
            r == self.value + 1,
    {
        self.value + 1
    }

    fn value(&self) -> (r: usize)
        ensures
            r == self.value,
    {
        self.value
    }
}

/// A reference to an `i32`, which cannot outlive what it refers to.
pub struct NumRef<'a> {
    pub x: &'a i32,
}

/// Wraps a reference to `x`.
pub fn as_num_ref(x: &i32) -> (r: NumRef<'_>)
    ensures
        *r.x == *x,
{
    NumRef { x: &x }
}

impl<'a> NumRef<'a> {
    /// The wrapped reference, with the lifetime of the wrapper.
    pub fn as_i32_ref(&'a self) -> (r: &'a i32)
        ensures
            *r == *self.x,
    {
        self.x
    }
}

/// A value with an index, which announces when it is dropped (the
/// announcement is made by whoever holds it).
pub struct ToDrop {
    pub idx: i32,
}

impl ToDrop {
    /// A value with index `idx`.
    pub fn new(idx: i32) -> (t: Self)
        ensures
            t.idx == idx,
    {
        ToDrop { idx: idx }
    }
}

/// Several shared reborrows of one mutable reference, read in turn while the
/// mutable one can still be read: every read sees the same value.
pub fn demo1() {
    let x = &mut 1u8;
    let y1 = &*x;
    let val_x = *x;
    let y2 = &*x;
    let val_y1 = *y1;
    let val_y2 = *y2;
    assert(val_x == 1 && val_y1 == 1 && val_y2 == 1);
}

} // verus!
