//! The operations that the command line offers.
use vstd::prelude::*;

verus! {

/// One operation of the command line.
#[derive(PartialEq, Eq, Structural, Debug, Clone, Copy)]
pub enum SubCommand {
    Encrypt,
    Decrypt,
    Key,
    List,
}

/// The word that selects `c` on the command line.
pub open spec fn subcommand_word(c: SubCommand) -> Seq<char> {
    match c {
        SubCommand::Encrypt => "encrypt"@,
        SubCommand::Decrypt => "decrypt"@,
        SubCommand::Key => "key"@,
        SubCommand::List => "list"@,
    }
}

impl SubCommand {
    /// The word that selects this operation on the command line.
    pub fn public_string(&self) -> (r: &'static str)
        ensures
            r@ == subcommand_word(*self),
    {
        match self {
            SubCommand::Encrypt => "encrypt",
            SubCommand::Decrypt => "decrypt",
            SubCommand::Key => "key",
            SubCommand::List => "list",
        }
    }
}

} // verus!
