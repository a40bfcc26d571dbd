//! Passwords as they pass through the proxy.

use vstd::prelude::*;

verus! {

/// A password in the clear.
pub struct Password(String);

/// A password after one-way hashing.
pub struct HashedPassword(String);

impl View for Password {
    type V = Seq<char>;

    closed spec fn view(&self) -> Seq<char> {
        self.0@
    }
}

impl View for HashedPassword {
    type V = Seq<char>;

    closed spec fn view(&self) -> Seq<char> {
        self.0@
    }
}

impl Clone for Password {
    fn clone(&self) -> (r: Password)
        ensures
            r == *self,
    {
        Password(self.0.clone())
    }
}

impl Clone for HashedPassword {
    fn clone(&self) -> (r: HashedPassword)
        ensures
            r == *self,
    {
        HashedPassword(self.0.clone())
    }
}

impl Password {
    pub fn new(text: String) -> (r: Password)
        ensures
            r@ == text@,
    {
        Password(text)
    }

    pub fn as_str(&self) -> (r: &str)
        ensures
            r@ == self@,
    {
        self.0.as_str()
    }
}

impl HashedPassword {
    /// Takes a text that already is a hash.
    pub fn from_hashed(hash: String) -> (r: HashedPassword)
        ensures
            r@ == hash@,
    {
        HashedPassword(hash)
    }

    pub fn as_str(&self) -> (r: &str)
        ensures
            r@ == self@,
    {
        self.0.as_str()
    }
}

} // verus!
