//! Reading a bundle's property-list manifest.
use vstd::prelude::*;

verus! {

/// The string stored under `key` at the top level of the property list
/// encoded in `bytes`, or `None` where the bytes do not decode to a
/// dictionary holding a string under that key.
pub uninterp spec fn plist_string_entry(bytes: Seq<u8>, key: Seq<char>) -> Option<Seq<char>>;

/// The view of an optional string.
pub open spec fn opt_chars(o: Option<String>) -> Option<Seq<char>> {
    match o {
        Some(s) => Some(s@),
        None => None,
    }
}

/// Relies on `plist::Value::from_reader` to decode a property list of any
/// encoding, and on `Value::as_dictionary`, `Dictionary::get` and
/// `Value::as_string` to read the string stored under `key`. The result
/// depends on the bytes and the key alone.
#[verifier::external_body]
pub fn string_entry(bytes: &[u8], key: &str) -> (r: Option<String>)
    ensures
        opt_chars(r) == plist_string_entry(bytes@, key@),
{
    let value = plist::Value::from_reader(std::io::Cursor::new(bytes)).ok()?;
    value.as_dictionary()?.get(key)?.as_string().map(|s| s.to_string())
}

} // verus!
