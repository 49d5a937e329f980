//! What a contract receives from the chain with each call, and what it answers.
use vstd::prelude::*;
use vstd::string::*;
use crate::coins::{Coin, coins_view};

verus! {

/// The sender of a message and the funds it carries.
pub struct MessageInfo {
    pub sender: String,
    pub funds: Vec<Coin>,
}

/// The block in which a message is executed and the address of the contract.
pub struct Env {
    pub block_height: u64,
    /// Block time in nanoseconds since the Unix epoch.
    pub block_time: u64,
    pub contract_address: String,
}

/// A key and value pair attached to a response as an event attribute.
#[derive(Debug, PartialEq, Eq)]
pub struct Attribute {
    pub key: String,
    pub value: String,
}

impl View for Attribute {
    type V = (Seq<char>, Seq<char>);

    open spec fn view(&self) -> (Seq<char>, Seq<char>) {
        (self.key@, self.value@)
    }
}

/// An attribute with the given key and value.
pub fn attr(key: &str, value: &str) -> (a: Attribute)
    ensures
        a@ == (key@, value@),
{
    Attribute { key: String::from_str(key), value: String::from_str(value) }
}

/// A transfer of coins from the contract to an address.
#[derive(Debug, PartialEq, Eq)]
pub struct BankSend {
    pub to_address: String,
    pub amount: Vec<Coin>,
}

impl View for BankSend {
    type V = (Seq<char>, Seq<(Seq<char>, u128)>);

    open spec fn view(&self) -> (Seq<char>, Seq<(Seq<char>, u128)>) {
        (self.to_address@, coins_view(self.amount@))
    }
}

/// The attributes of a response as key and value pairs.
pub open spec fn attrs_view(attrs: Seq<Attribute>) -> Seq<(Seq<char>, Seq<char>)> {
    attrs.map_values(|a: Attribute| a@)
}

} // verus!

verus! {

/// What a contract answers: event attributes and the messages it asks the chain
/// to dispatch.
#[derive(Debug, PartialEq, Eq)]
pub struct Response<M> {
    pub attributes: Vec<Attribute>,
    pub messages: Vec<M>,
}

impl<M> Response<M> {
    /// An empty response.
    pub fn new() -> (r: Response<M>)
        ensures
            r.attributes@.len() == 0,
            r.messages@.len() == 0,
    {
        Response { attributes: Vec::new(), messages: Vec::new() }
    }

    /// Appends an attribute.
    pub fn add_attribute(&mut self, key: &str, value: &str)
        ensures
            attrs_view(final(self).attributes@) == attrs_view(old(self).attributes@).push((key@, value@)),
            final(self).messages@ == old(self).messages@,
    {
        self.attributes.push(attr(key, value));
        proof {
            assert(attrs_view(self.attributes@) =~= attrs_view(old(self).attributes@).push((key@, value@)));
        }
    }

    /// Appends a message.
    pub fn add_message(&mut self, msg: M)
        ensures
            final(self).attributes@ == old(self).attributes@,
            final(self).messages@ == old(self).messages@.push(msg),
    {
        self.messages.push(msg);
    }
}

} // verus!

verus! {

/// The answer of the chain to a submessage: its id and, on success, the data
/// that the callee returned; on failure, the error text.
pub struct Reply {
    pub id: u64,
    pub result: Result<Option<Vec<u8>>, String>,
}


/// Why the data of a reply to an instantiation could not be read.
#[derive(Debug, PartialEq, Eq)]
pub enum ParseReplyError {
    /// The submessage failed, with this error text.
    SubMsgFailure(String),
    /// The reply holds no data, or data that is no instantiate response.
    ParseFailure(String),
    /// The contract address in the data is no UTF-8.
    BrokenUtf8 {},
}

} // verus!
