//! Looking up a wireless network by its name in the networks register.
//!
//! The register is asked over HTTP by the caller. What to ask, and what to
//! make of the answers, is decided here.

use vstd::prelude::*;
use vstd::string::StringExecFns;
use crate::text::append_text;

verus! {

/// A network as the register knows it.
#[derive(Clone, Debug, PartialEq, Eq)]
pub struct NetworkInfo {
    pub id: String,
    pub name: String,
}

/// What a lookup comes to once the register has been searched.
#[derive(Clone, Debug, PartialEq, Eq)]
pub enum NetworkLookup {
    /// The register knows the network.
    Known(NetworkInfo),
    /// The register does not know the network: it is to be registered under
    /// `name`, and the register's answer is its id.
    Register { name: String },
}

/// The address to search the register at `endpoint` for `ssid`.
pub open spec fn search_address(endpoint: Seq<char>, ssid: Seq<char>) -> Seq<char> {
    endpoint + "?search="@ + ssid
}

/// The address to search the register at `endpoint` for `ssid`.
pub fn search_url(endpoint: &str, ssid: &str) -> (url: String)
    ensures
        url@ == search_address(endpoint@, ssid@),
{
    let mut url = append_text(endpoint, "?search=");
    url.append(ssid);
    url
}

/// The network called `ssid`, from the ids that a search of the register for
/// it gave: the last of them. Where the search gave none, the network is to
/// be registered.
pub fn get_network_info(ssid: String, found: Vec<String>) -> (lookup: NetworkLookup)
    ensures
        match lookup {
            NetworkLookup::Known(info) => found.len() > 0 && info.id@ == found@.last()@ && info.name
                == ssid,
            NetworkLookup::Register { name } => found.len() == 0 && name == ssid,
        },
{
    let mut found = found;
    match found.pop() {
        Some(id) => NetworkLookup::Known(NetworkInfo { id, name: ssid }),
        None => NetworkLookup::Register { name: ssid },
    }
}

/// The network called `name` that the register has just given the id `id`.
pub fn registered_network(name: String, id: String) -> (info: NetworkInfo)
    ensures
        info.id == id,
        info.name == name,
{
    NetworkInfo { id, name }
}

} // verus!
