//! Identifies a console admin: an operator account of the proxy, distinct from
//! the admin credentials of the servers behind it.

use vstd::prelude::*;

use crate::text;

verus! {

/// The number of a console admin account.
#[derive(Clone, Copy, Debug, PartialEq, Eq, Hash, Structural)]
pub struct AdminId(i64);

impl View for AdminId {
    type V = int;

    closed spec fn view(&self) -> int {
        self.0 as int
    }
}

impl AdminId {
    pub fn new(value: i64) -> (r: AdminId)
        ensures
            r@ == value,
    {
        AdminId(value)
    }

    pub fn as_i64(self) -> (r: i64)
        ensures
            r == self@,
    {
        self.0
    }

    /// The id in decimal.
    pub fn to_text(self) -> (r: String)
        ensures
            r@ == text::int_text(self@),
    {
        text::i64_text(self.0)
    }
}

/// An admin id is determined by its number, which is an `i64`.
pub broadcast proof fn admin_id_is_its_number(a: AdminId, b: AdminId)
    ensures
        (#[trigger] a@ == #[trigger] b@) <==> a == b,
        i64::MIN <= a@ <= i64::MAX,
{
}

} // verus!
