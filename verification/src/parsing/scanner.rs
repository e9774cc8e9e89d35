//! A cursor over a line of input or over its tokens, with a look ahead.

use crate::token::{Token, Tokens};
use vstd::prelude::*;

verus! {

/// A position in an input: `index` items of `input` have been taken.
pub struct Scanner<T> {
    pub input: T,
    pub index: usize,
}

impl<T> Scanner<T> {
    /// A scanner at the start of `input`.
    pub fn new(input: T) -> (r: Scanner<T>)
        ensures
            r.input == input,
            r.index == 0,
    {
        Scanner { input, index: 0 }
    }
}

/// The item of `s` at `index`, where there is one.
pub open spec fn item_at<A>(s: Seq<A>, index: int) -> Option<A> {
    if 0 <= index < s.len() {
        Some(s[index])
    } else {
        None
    }
}

impl Scanner<String> {
    /// The next character, which stays in place.
    pub fn peek(&self) -> (r: Option<char>)
        ensures
            r == item_at(self.input@, self.index as int),
    {
        if self.index < self.input.as_str().unicode_len() {
            Some(self.input.as_str().get_char(self.index))
        } else {
            None
        }
    }

    /// The character `index` places after the next one, which stays in place.
    pub fn peek_next(&self, index: usize) -> (r: Option<char>)
        ensures
            r == item_at(self.input@, self.index + index),
    {
        let len = self.input.as_str().unicode_len();
        if self.index < len && index < len - self.index {
            Some(self.input.as_str().get_char(self.index + index))
        } else {
            None
        }
    }

    /// Takes the next character.
    pub fn next(&mut self) -> (r: char)
        requires
            old(self).index < old(self).input@.len(),
        ensures
            r == old(self).input@[old(self).index as int],
            final(self).index == old(self).index + 1,
            final(self).input == old(self).input,
    {
        let len = self.input.as_str().unicode_len();
        let c = self.input.as_str().get_char(self.index);
        assert(self.index < len);
        self.index += 1;
        c
    }
}

impl Scanner<Tokens> {
    /// The next token, which stays in place.
    pub fn peek(&self) -> (r: Option<Token>)
        ensures
            r is Some <==> self.index < self.input@.len(),
            r is Some ==> r.unwrap()@ == self.input@[self.index as int]@,
    {
        if self.index < self.input.len() {
            Some(self.input[self.index].clone())
        } else {
            None
        }
    }

    /// Takes the next token.
    pub fn next(&mut self) -> (r: Token)
        requires
            old(self).index < old(self).input@.len(),
        ensures
            r@ == old(self).input@[old(self).index as int]@,
            final(self).index == old(self).index + 1,
            final(self).input == old(self).input,
    {
        let len = self.input.len();
        let t = self.input[self.index].clone();
        assert(self.index < len);
        self.index += 1;
        t
    }
}

} // verus!
