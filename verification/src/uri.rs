//! The addresses under which packaged files are asked for: a protocol, the
//! mark `://`, and a path.

use vstd::prelude::*;
use vstd::string::StringExecFns;
use crate::error::DataError;
use crate::text::has_prefix;

verus! {

/// What stands before the path in an address of `protocol`.
pub open spec fn protocol_prefix(protocol: Seq<char>) -> Seq<char> {
    protocol + "://"@
}

/// What stands before the path in an address that the packaged program
/// asks for.
pub open spec fn runtime_prefix() -> Seq<char> {
    "neu://localhost"@
}

/// The address of `path` under `protocol`.
pub fn custom_protocol_uri(protocol: &str, path: &str) -> (uri: String)
    ensures
        uri@ == protocol_prefix(protocol@) + path@,
{
    let mut uri = String::from_str(protocol);
    uri.append("://");
    uri.append(path);
    uri
}

/// The address of `path` in the packaged program.
pub fn runtime_uri(path: &str) -> (uri: String)
    ensures
        uri@ == runtime_prefix() + path@,
{
    let mut uri = String::from_str("neu://localhost");
    uri.append(path);
    uri
}

/// What `custom_protocol_uri_to_path` returns: the path of an address of
/// `protocol`, or [`DataError::ForeignUri`] for any other text.
pub open spec fn path_of_uri(protocol: Seq<char>, uri: Seq<char>) -> Result<Seq<char>, DataError> {
    if protocol_prefix(protocol).is_prefix_of(uri) {
        Ok(uri.skip(protocol_prefix(protocol).len() as int))
    } else {
        Err(DataError::ForeignUri)
    }
}

/// A result that carries a text, with the text as a sequence.
pub open spec fn text_result(r: Result<String, DataError>) -> Result<Seq<char>, DataError> {
    match r {
        Ok(text) => Ok(text@),
        Err(e) => Err(e),
    }
}

/// The path of an address: what follows the prefix of `protocol` in `uri`.
/// Fails with [`DataError::ForeignUri`] exactly when `uri` does not begin
/// with that prefix.
pub fn custom_protocol_uri_to_path(protocol: &str, uri: &str) -> (r: Result<String, DataError>)
    ensures
        text_result(r) == path_of_uri(protocol@, uri@),
{
    let mut prefix = String::from_str(protocol);
    prefix.append("://");
    if has_prefix(uri, prefix.as_str()) {
        let from = prefix.as_str().unicode_len();
        let rest = uri.substring_char(from, uri.unicode_len());
        Ok(String::from_str(rest))
    } else {
        Err(DataError::ForeignUri)
    }
}

/// Taking the path out of an address gives back the path that the address
/// was made of.
pub proof fn lemma_uri_round_trip(protocol: Seq<char>, path: Seq<char>)
    ensures
        path_of_uri(protocol, protocol_prefix(protocol) + path) == Ok::<Seq<char>, DataError>(path),
{
    let prefix = protocol_prefix(protocol);
    let uri = prefix + path;
    assert(uri.subrange(0, prefix.len() as int) =~= prefix);
    assert(uri.skip(prefix.len() as int) =~= path);
}

} // verus!
