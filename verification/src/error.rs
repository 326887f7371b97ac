//! The database's own error.

use vstd::prelude::*;
use vstd::string::*;

verus! {

/// An error of the database, by its message.
#[derive(Debug)]
pub struct NodeDBError(pub String);

impl NodeDBError {
    /// The error as it is shown to a reader.
    pub fn to_string(&self) -> (res: String)
        ensures
            res@ == "NodeDBError: "@ + self.0@,
    {
        let mut res = "NodeDBError: ".to_owned();
        res.append(self.0.as_str());
        res
    }

    /// The message of the error that answers every request for code by its hash.
    pub open spec fn code_by_hash_message() -> Seq<char> {
        "This should not be called, as the code is already loaded"@
    }

    /// The error that answers every request for code by its hash: accounts carry their code.
    pub fn code_by_hash() -> (res: Self)
        ensures
            res.0@ == NodeDBError::code_by_hash_message(),
    {
        NodeDBError("This should not be called, as the code is already loaded".to_owned())
    }

    /// The message of the error that answers a request for a block that does not exist.
    pub open spec fn no_block_message() -> Seq<char> {
        "No block with this number exists"@
    }

    /// The error that answers a request for a block that does not exist.
    pub fn no_block() -> (res: Self)
        ensures
            res.0@ == NodeDBError::no_block_message(),
    {
        NodeDBError("No block with this number exists".to_owned())
    }
}

} // verus!
