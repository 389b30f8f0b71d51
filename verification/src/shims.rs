//! Thin trusted wrappers over standard-library functions that vstd leaves
//! unspecified.
//!
//! Each wrapper holds exactly one call; its contract states only what the
//! standard library documents.

use std::io::Write;
use std::sync::Arc;
use vstd::prelude::*;

verus! {

/// Relies on String::from_utf8: it returns a string over exactly the given
/// bytes when they are valid UTF-8, and an error otherwise. vstd fixes a
/// string's byte form as `encode_utf8` of its characters.
#[verifier::external_body]
pub fn bytes_to_string(v: Vec<u8>) -> (r: Option<String>)
    ensures
        match r {
            Some(s) => vstd::utf8::encode_utf8(s@) == v@,
            None => !vstd::utf8::valid_utf8(v@),
        },
{
    match String::from_utf8(v) {
        Ok(s) => Some(s),
        Err(_) => None,
    }
}

/// Relies on Arc::as_ptr: the address of the shared allocation, here exposed
/// as an integer. Nothing can be promised of an address.
#[verifier::external_body]
pub fn arc_addr<T>(a: &Arc<T>) -> usize {
    Arc::as_ptr(a) as usize
}

/// Relies on Arc::strong_count. The count depends on how many handles are
/// alive, so nothing is promised of it.
#[verifier::external_body]
pub fn arc_strong_count<T>(a: &Arc<T>) -> usize {
    Arc::strong_count(a)
}

/// Relies on Arc::weak_count. Nothing is promised of it.
#[verifier::external_body]
pub fn arc_weak_count<T>(a: &Arc<T>) -> usize {
    Arc::weak_count(a)
}

/// Relies on std::io::Stderr::write_fmt (through writeln) to put one
/// diagnostic line on the standard error stream. Output only; nothing is
/// promised.
#[verifier::external_body]
pub fn emit_line(line: &String) {
    let _ = writeln!(&mut std::io::stderr(), "{}", line.as_str());
}

} // verus!
