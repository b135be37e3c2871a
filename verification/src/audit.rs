//! Audit-log actions of the companion web service.

use vstd::prelude::*;
use vstd::string::StringExecFns;

verus! {

/// What an audit-log record says was done.
#[derive(Debug, PartialEq, Eq)]
pub enum LogAction {
    Create,
    Update,
    Delete,
    Read,
    Custom(String),
}

impl Clone for LogAction {
    fn clone(&self) -> (r: Self)
        ensures
            r == self,
    {
        match self {
            LogAction::Create => LogAction::Create,
            LogAction::Update => LogAction::Update,
            LogAction::Delete => LogAction::Delete,
            LogAction::Read => LogAction::Read,
            LogAction::Custom(s) => LogAction::Custom(s.clone()),
        }
    }
}

impl LogAction {
    /// The word this action is recorded under.
    pub open spec fn name_spec(&self) -> Seq<char> {
        match self {
            LogAction::Create => "create"@,
            LogAction::Update => "update"@,
            LogAction::Delete => "delete"@,
            LogAction::Read => "read"@,
            LogAction::Custom(s) => s@,
        }
    }

    /// The word this action is recorded under.
    pub fn to_string(&self) -> (r: String)
        ensures
            r@ == self.name_spec(),
    {
        match self {
            LogAction::Create => String::from_str("create"),
            LogAction::Update => String::from_str("update"),
            LogAction::Delete => String::from_str("delete"),
            LogAction::Read => String::from_str("read"),
            LogAction::Custom(s) => s.clone(),
        }
    }
}

} // verus!
