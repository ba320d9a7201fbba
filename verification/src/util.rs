//! Formatting of database record ids.
use vstd::prelude::*;
use vstd::string::*;

use crate::calls::{RecordKey, RecordRef, record_ref_text};
use crate::text::{push_signed_decimal, push_str};

verus! {

broadcast use vstd::string::group_string_axioms;

/// Formats a record id as `table:key`.
pub fn format_record_id(id: &RecordRef) -> (s: String)
    ensures
        s@ == record_ref_text(*id),
{
    let mut s = String::from_str(id.table.as_str());
    push_str(&mut s, ":");
    match &id.key {
        RecordKey::Text(k) => push_str(&mut s, k.as_str()),
        RecordKey::Number(n) => push_signed_decimal(&mut s, *n),
        RecordKey::Other(d) => push_str(&mut s, d.as_str()),
    }
    s
}

} // verus!
