//! Ordered lists of Lua values: the arguments and results of a call.

use vstd::prelude::*;
use std::collections::VecDeque;
use crate::value::Value;

verus! {

/// An ordered, growable sequence of Lua values (multiple arguments or
/// multiple results); the front is the first value.
#[derive(Debug)]
pub struct MultiValue(pub(crate) VecDeque<Value>);

impl Default for MultiValue {
    /// No values.
    fn default() -> (r: MultiValue)
        ensures
            r@ == Seq::<Value>::empty(),
    {
        MultiValue::new()
    }
}

impl View for MultiValue {
    type V = Seq<Value>;

    closed spec fn view(&self) -> Seq<Value> {
        self.0@
    }
}

impl MultiValue {
    /// An empty list.
    pub fn new() -> (r: MultiValue)
        ensures
            r@ == Seq::<Value>::empty(),
    {
        MultiValue(VecDeque::new())
    }

    /// An empty list with room for `capacity` values.
    pub fn with_capacity(capacity: usize) -> (r: MultiValue)
        ensures
            r@ == Seq::<Value>::empty(),
    {
        MultiValue(VecDeque::with_capacity(capacity))
    }

    /// The list holding the values of `vec`, in order.
    pub fn from_vec(vec: Vec<Value>) -> (r: MultiValue)
        ensures
            r@ == vec@,
    {
        let mut vec = vec;
        let ghost all = vec@;
        let mut out: VecDeque<Value> = VecDeque::new();
        while vec.len() > 0
            invariant
                all == vec@ + out@,
            decreases vec.len(),
        {
            let ghost before = vec@;
            let v = match vec.pop() {
                Some(v) => v,
                None => Value::Nil,
            };
            out.push_front(v);
            assert(before == vec@.push(v));
            assert(all =~= vec@ + out@);
        }
        assert(all =~= out@);
        MultiValue(out)
    }

    /// The values, in order, as a vector.
    pub fn into_vec(self) -> (r: Vec<Value>)
        ensures
            r@ == self@,
    {
        let mut dq = self.0;
        let ghost all = dq@;
        let mut out: Vec<Value> = Vec::new();
        while dq.len() > 0
            invariant
                all == out@ + dq@,
            decreases dq.len(),
        {
            let ghost before = dq@;
            let v = match dq.pop_front() {
                Some(v) => v,
                None => Value::Nil,
            };
            out.push(v);
            assert(all =~= out@ + dq@);
        }
        assert(all =~= out@);
        out
    }

    /// The number of values.
    pub fn len(&self) -> (r: usize)
        ensures
            r == self@.len(),
    {
        self.0.len()
    }

    /// Whether the list holds no value.
    pub fn is_empty(&self) -> (r: bool)
        ensures
            r == (self@.len() == 0),
    {
        self.0.len() == 0
    }

    /// Appends a value at the back.
    pub fn push_back(&mut self, value: Value)
        ensures
            final(self)@ == old(self)@.push(value),
    {
        self.0.push_back(value);
    }

    /// Prepends a value at the front.
    pub fn push_front(&mut self, value: Value)
        ensures
            final(self)@ == seq![value] + old(self)@,
    {
        self.0.push_front(value);
    }

    /// Removes and returns the first value.
    pub fn pop_front(&mut self) -> (r: Option<Value>)
        ensures
            old(self)@.len() == 0 ==> r is None && final(self)@ == old(self)@,
            old(self)@.len() > 0 ==> r == Some(old(self)@[0]) && final(self)@ == old(self)@.drop_first(),
    {
        self.0.pop_front()
    }

    /// Removes and returns the last value.
    pub fn pop_back(&mut self) -> (r: Option<Value>)
        ensures
            old(self)@.len() == 0 ==> r is None && final(self)@ == old(self)@,
            old(self)@.len() > 0 ==> r == Some(old(self)@.last()) && final(self)@ == old(self)@.drop_last(),
    {
        self.0.pop_back()
    }
}

/// A list of values of one type: the rest of an argument list, or a variable
/// number of results.
#[derive(Debug)]
pub struct Variadic<T>(pub(crate) Vec<T>);

impl<T> View for Variadic<T> {
    type V = Seq<T>;

    closed spec fn view(&self) -> Seq<T> {
        self.0@
    }
}

impl<T> Variadic<T> {
    /// An empty list.
    pub fn new() -> (r: Variadic<T>)
        ensures
            r@ == Seq::<T>::empty(),
    {
        Variadic(Vec::new())
    }

    /// An empty list with room for `capacity` values.
    pub fn with_capacity(capacity: usize) -> (r: Variadic<T>)
        ensures
            r@ == Seq::<T>::empty(),
    {
        Variadic(Vec::with_capacity(capacity))
    }

    /// The list holding the values of `vec`.
    pub fn from_vec(vec: Vec<T>) -> (r: Variadic<T>)
        ensures
            r@ == vec@,
    {
        Variadic(vec)
    }

    /// The values as a vector.
    pub fn into_vec(self) -> (r: Vec<T>)
        ensures
            r@ == self@,
    {
        self.0
    }

    /// The number of values.
    pub fn len(&self) -> (r: usize)
        ensures
            r == self@.len(),
    {
        self.0.len()
    }

    /// Appends a value.
    pub fn push(&mut self, value: T)
        ensures
            final(self)@ == old(self)@.push(value),
    {
        self.0.push(value);
    }
}

} // verus!
