//! The addresses of the example processes.
use vstd::prelude::*;
use crate::text::{chars_of, string_of};

verus! {

/// A process address: node, process, package and publisher.
pub struct ProcessAddress {
    pub node: String,
    pub process: String,
    pub package: String,
    pub publisher: String,
}

/// Whether the address is made of the four given names.
pub open spec fn is_address(a: ProcessAddress, node: Seq<char>, process: Seq<char>, package: Seq<char>, publisher: Seq<char>) -> bool {
    &&& a.node@ == node
    &&& a.process@ == process
    &&& a.package@ == package
    &&& a.publisher@ == publisher
}

fn address(node: &str, process: &str, package: &str, publisher: &str) -> (a: ProcessAddress)
    ensures
        is_address(a, node@, process@, package@, publisher@),
{
    ProcessAddress {
        node: string_of(&chars_of(node)),
        process: string_of(&chars_of(process)),
        package: string_of(&chars_of(package)),
        publisher: string_of(&chars_of(publisher)),
    }
}

/// Receiver A on this node.
pub fn receiver_address_a() -> (a: ProcessAddress)
    ensures
        is_address(a, "our"@, "receiver-a"@, "async-app"@, "uncentered.os"@),
{
    address("our", "receiver-a", "async-app", "uncentered.os")
}

/// Receiver B on this node.
pub fn receiver_address_b() -> (a: ProcessAddress)
    ensures
        is_address(a, "our"@, "receiver-b"@, "async-app"@, "uncentered.os"@),
{
    address("our", "receiver-b", "async-app", "uncentered.os")
}

/// The requester on this node.
pub fn requester_address() -> (a: ProcessAddress)
    ensures
        is_address(a, "our"@, "async-requester"@, "async-app"@, "uncentered.os"@),
{
    address("our", "async-requester", "async-app", "uncentered.os")
}

} // verus!
