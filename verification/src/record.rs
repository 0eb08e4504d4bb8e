//! What a search hands out for each match, and where a match's key file goes.

use crate::hex_text::{strip_hex_marker, without_hex_marker};
use vstd::prelude::*;

verus! {

/// The name of the key file of an address: the address without its `0x`,
/// followed by `.key`.
pub open spec fn key_file_name_of(address: Seq<char>) -> Seq<char> {
    without_hex_marker(address) + ".key"@
}

/// The path of the key file of an address in a directory: the directory, a
/// slash and the file's name.
pub open spec fn key_file_path_of(directory: Seq<char>, address: Seq<char>) -> Seq<char> {
    directory + "/"@ + key_file_name_of(address)
}

/// The name of the key file of `address`.
pub fn key_file_name(address: &str) -> (name: String)
    ensures
        name@ == key_file_name_of(address@),
{
    strip_hex_marker(address).to_owned().concat(".key")
}

/// The path of the key file of `address` in `directory`.
pub fn key_file_path(directory: &str, address: &str) -> (path: String)
    ensures
        path@ == key_file_path_of(directory@, address@),
{
    let name = key_file_name(address);
    directory.to_owned().concat("/").concat(name.as_str())
}

/// What is shown of a match's key.
#[derive(Debug, Clone)]
pub enum MatchOutput {
    /// The key was written to the file at `path`; the key itself is not shown.
    KeyFile { path: String },
    /// The key in its portable encoded form, for the terminal.
    EncodedKey { encoded: String },
}

/// One accepted candidate, as the search hands it out.
#[derive(Debug, Clone)]
pub struct MatchRecord {
    /// The place of the match among the matches of the run, counted from one.
    pub ordinal: usize,
    /// The matching address, as text.
    pub address: String,
    /// The key file's path or the encoded key.
    pub output: MatchOutput,
}

impl MatchRecord {
    /// The record of a match whose key goes to a file in `directory`.
    pub fn persisted(ordinal: usize, address: &str, directory: &str) -> (record: MatchRecord)
        ensures
            record.ordinal == ordinal,
            record.address@ == address@,
            record.output matches MatchOutput::KeyFile { path } && path@ == key_file_path_of(
                directory@,
                address@,
            ),
    {
        MatchRecord {
            ordinal,
            address: address.to_owned(),
            output: MatchOutput::KeyFile { path: key_file_path(directory, address) },
        }
    }

    /// The record of a match whose encoded key is printed.
    pub fn printed(ordinal: usize, address: &str, encoded_key: String) -> (record: MatchRecord)
        ensures
            record.ordinal == ordinal,
            record.address@ == address@,
            record.output matches MatchOutput::EncodedKey { encoded } && encoded@ == encoded_key@,
    {
        MatchRecord {
            ordinal,
            address: address.to_owned(),
            output: MatchOutput::EncodedKey { encoded: encoded_key },
        }
    }
}

} // verus!
