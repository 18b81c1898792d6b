//! What comes back from a request to create a component.

use vstd::prelude::*;

verus! {

/// What a remote operation that succeeded hands back.
#[derive(Debug, PartialEq, Eq)]
pub struct SubMsgResponse {
    pub data: Option<Vec<u8>>,
}

/// The outcome of a remote operation: its payload, or the text of its failure.
#[derive(Debug, PartialEq, Eq)]
pub struct Reply {
    /// The tag that the request was sent with.
    pub id: u64,
    pub result: Result<SubMsgResponse, String>,
}

/// The identity of the created component, as `data` encodes it, where `data`
/// decodes as the response to a creation request. The decoder narrows a
/// field's length to the width of an address, so that width, in bits, is the
/// second argument.
pub uninterp spec fn instantiated_address(data: Seq<u8>, address_bits: u32) -> Option<Seq<char>>;

/// `cw_utils::parse_instantiate_response_data`: the contract address in the
/// decoded response, or nothing where the bytes do not decode.
#[verifier::external_body]
pub(crate) fn parse_instantiate_response_data(data: &Vec<u8>) -> (r: Option<String>)
    ensures
        match r {
            Some(address) => instantiated_address(data@, usize::BITS) == Some(address@),
            None => instantiated_address(data@, usize::BITS) is None,
        },
{
    match cw_utils::parse_instantiate_response_data(data.as_slice()) {
        Ok(response) => Some(response.contract_address),
        Err(_) => None,
    }
}

} // verus!
