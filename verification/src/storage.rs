//! Failures of the database behind the services.

use vstd::prelude::*;

verus! {

/// What a database said when it refused a statement.
#[derive(Debug)]
pub struct DatabaseFault {
    /// The name of the violated constraint; empty when none is named.
    pub constraint: String,
    pub message: String,
    pub unique_violation: bool,
}

/// A failed database operation: its text, and the database's own words when it
/// was the database that refused.
#[derive(Debug)]
pub struct StorageError {
    pub text: String,
    pub database: Option<DatabaseFault>,
}

impl StorageError {
    /// The violation of a unique key.
    pub open spec fn is_unique_violation(self) -> bool {
        self.database matches Some(fault) && fault.unique_violation
    }

    /// Whether a unique key was violated.
    pub fn unique_violation(&self) -> (r: bool)
        ensures
            r == self.is_unique_violation(),
            r <==> self.database is Some && self.database->0.unique_violation,
    {
        match &self.database {
            Some(fault) => fault.unique_violation,
            None => false,
        }
    }

    /// The refusal of a row whose unique key is taken.
    pub fn duplicate(message: &str) -> (r: StorageError)
        ensures
            r.is_unique_violation(),
            r.text@ == message@,
            r.database matches Some(fault) && fault.message@ == message@ && fault.constraint@
                == Seq::<char>::empty(),
    {
        StorageError {
            text: message.to_owned(),
            database: Some(
                DatabaseFault {
                    constraint: String::new(),
                    message: message.to_owned(),
                    unique_violation: true,
                },
            ),
        }
    }

    /// A failure that is not a refusal by the database.
    pub fn other(text: &str) -> (r: StorageError)
        ensures
            r.database is None,
            r.text@ == text@,
    {
        StorageError { text: text.to_owned(), database: None }
    }
}

} // verus!
