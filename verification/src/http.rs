//! What the worker says to the server and what it makes of the answer.
//!
//! A download resumes where the temporary file ends: the request names that
//! offset as the start of a byte range. The size of the whole archive is
//! what the server declares as the content's length; a server that declares
//! nothing readable leaves the size unknown, which is zero.
//!
//! Resuming trusts the temporary file: nothing here checks that what it
//! holds is still the beginning of what the server has. If the archive
//! changed between two runs, the file that results is neither the old nor
//! the new one.

use vstd::prelude::*;
use crate::text::{decimal, decimal_u64, parse_u64, push_decimal};

verus! {

/// Where to resume, given the length of what the temporary file holds, if
/// the file is there at all.
pub open spec fn resume_offset_of(existing_len: Option<u64>) -> u64 {
    match existing_len {
        Some(len) => len,
        None => 0,
    }
}

/// The value of the range header for a download that resumes at `offset`;
/// none for a download from the beginning.
pub open spec fn range_header_of(offset: u64) -> Option<Seq<char>> {
    if offset > 0 {
        Some("bytes="@ + decimal(offset as nat) + "-"@)
    } else {
        None
    }
}

/// The total size that a content-length header declares; zero if there is
/// no header or it holds no number.
pub open spec fn declared_total(content_length: Option<Seq<char>>) -> u64 {
    match content_length {
        Some(text) => match decimal_u64(text) {
            Some(total) => total,
            None => 0,
        },
        None => 0,
    }
}

/// Where a download starts: at the end of what is already there.
pub fn resume_offset(existing_len: Option<u64>) -> (offset: u64)
    ensures
        offset == resume_offset_of(existing_len),
{
    match existing_len {
        Some(len) => len,
        None => 0,
    }
}

/// The byte range to ask for: `bytes=<offset>-` when resuming, nothing
/// when starting at zero.
pub fn range_header(offset: u64) -> (header: Option<String>)
    ensures
        match header {
            Some(h) => range_header_of(offset) == Some(h@),
            None => range_header_of(offset) is None,
        },
{
    if offset > 0 {
        let mut h = "bytes=".to_owned();
        push_decimal(&mut h, offset);
        h.append("-");
        Some(h)
    } else {
        None
    }
}

/// The size of the archive as the probe's answer declares it.
pub fn total_from_content_length(content_length: Option<&str>) -> (total: u64)
    ensures
        total == declared_total(
            match content_length {
                Some(text) => Some(text@),
                None => None,
            },
        ),
{
    match content_length {
        Some(text) => match parse_u64(text) {
            Some(total) => total,
            None => 0,
        },
        None => 0,
    }
}

} // verus!
