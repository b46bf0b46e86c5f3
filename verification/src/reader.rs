//! Reading bytes in order: Symphonia's `BufReader`.
//!
//! Each function here makes one call into Symphonia. What is claimed of it is not proved.

use symphonia_core::io::{BufReader, ReadBytes};
use vstd::prelude::*;

verus! {

/// Symphonia's reader of a slice of bytes.
#[verifier::external_type_specification]
#[verifier::external_body]
pub struct ExBufReader<'a>(BufReader<'a>);

/// The error of reading past the end.
#[verifier::external_type_specification]
#[verifier::external_body]
pub struct ExIoError(std::io::Error);

/// The bytes that a reader has not read yet.
pub uninterp spec fn unread(reader: BufReader<'_>) -> Seq<u8>;

/// Calls `BufReader::new`, whose result has all of the bytes to read.
#[verifier::external_body]
pub(crate) fn open(buf: &[u8]) -> (reader: BufReader<'_>)
    ensures
        unread(reader) == buf@,
{
    BufReader::new(buf)
}

/// Calls `BufReader::read_buf_exact`, which fills `dest` with the next bytes. Where there are too few,
/// it fails, and neither reads nor writes.
#[verifier::external_body]
pub(crate) fn read_buf_exact(reader: &mut BufReader<'_>, dest: &mut [u8; 8]) -> (r: Result<
    (),
    std::io::Error,
>)
    ensures
        r is Ok <==> unread(*old(reader)).len() >= 8,
        r is Ok ==> final(dest)@ == unread(*old(reader)).take(8),
        r is Ok ==> unread(*final(reader)) == unread(*old(reader)).skip(8),
        r is Err ==> final(dest)@ == old(dest)@,
        r is Err ==> unread(*final(reader)) == unread(*old(reader)),
{
    reader.read_buf_exact(dest)
}

/// Calls `BufReader::read_byte`, which returns the next byte. Where there is none, it fails.
#[verifier::external_body]
pub(crate) fn read_byte(reader: &mut BufReader<'_>) -> (r: Result<u8, std::io::Error>)
    ensures
        r is Ok <==> unread(*old(reader)).len() >= 1,
        r is Ok ==> r->Ok_0 == unread(*old(reader))[0],
        r is Ok ==> unread(*final(reader)) == unread(*old(reader)).skip(1),
        r is Err ==> unread(*final(reader)) == unread(*old(reader)),
{
    reader.read_byte()
}

/// Calls `BufReader::read_u16`, which returns the next two bytes as a number, the less significant
/// one first. Where there are fewer, it fails, and reads nothing.
#[verifier::external_body]
pub(crate) fn read_u16(reader: &mut BufReader<'_>) -> (r: Result<u16, std::io::Error>)
    ensures
        r is Ok <==> unread(*old(reader)).len() >= 2,
        r is Ok ==> r->Ok_0 == unread(*old(reader))[0] + 256 * unread(*old(reader))[1],
        r is Ok ==> unread(*final(reader)) == unread(*old(reader)).skip(2),
        r is Err ==> unread(*final(reader)) == unread(*old(reader)),
{
    reader.read_u16()
}

} // verus!
