//! The TCP side of the fixture.
use crate::address::SocketAddr;
use crate::fixture;
use crate::fixture::Pattern;
use crate::text;
use vstd::prelude::*;

verus! {

/// What the TCP stream is made from.
pub open spec fn pattern() -> Pattern {
    Pattern { factor: 31, term: 17 }
}

fn stream() -> (made: Pattern)
    ensures
        made == pattern(),
{
    Pattern { factor: 31, term: 17 }
}

/// The byte at a place of the stream.
pub fn pattern_byte(position: u64) -> (byte: u8)
    ensures
        byte == fixture::byte_at(pattern(), position as int),
{
    stream().byte(position)
}

/// Fills a buffer with the stream from an offset on.
pub fn fill_pattern(buffer: &mut [u8], offset: u64)
    requires
        offset + old(buffer)@.len() <= fixture::WORD,
    ensures
        final(buffer)@ == fixture::stretch(pattern(), offset as int, old(buffer)@.len()),
{
    stream().fill(buffer, offset);
}

/// What is said of a byte that came back wrong.
pub open spec fn wrong_text(position: int, expected: u8, actual: u8) -> Seq<char> {
    "TCP echo verification failed at byte "@ + text::decimal(position as nat) + ": expected "@
        + text::decimal(expected as nat) + ", got "@ + text::decimal(actual as nat)
}

/// What is said of a byte that came back wrong.
fn wrong_reason(position: u64, expected: u8, actual: u8) -> (text: String)
    ensures
        text@ == wrong_text(position as int, expected, actual),
{
    let mut text = "TCP echo verification failed at byte ".to_owned();
    text::put_number(&mut text, position as u64);
    text.append(": expected ");
    text::put_number(&mut text, expected as u64);
    text.append(", got ");
    text::put_number(&mut text, actual as u64);
    text
}

/// Accepts a buffer that holds the stream from an offset on; otherwise names the first wrong byte.
pub fn verify_pattern(buffer: &[u8], offset: u64) -> (r: Result<(), String>)
    requires
        offset + buffer@.len() <= fixture::WORD,
    ensures
        match r {
            Ok(_) => buffer@ == fixture::stretch(pattern(), offset as int, buffer@.len()),
            Err(reason) => exists|at: int|
                {
                    &&& #[trigger] fixture::first_wrong(buffer@, pattern(), offset as int, at)
                    &&& reason@ == wrong_text(
                        offset + at,
                        fixture::byte_at(pattern(), offset + at),
                        buffer@[at],
                    )
                },
        },
{
    match stream().find_wrong(buffer, offset) {
        None => Ok(()),
        Some(at) => {
            let position: u64 = offset + at as u64;
            let reason = wrong_reason(position, pattern_byte(position), buffer[at]);
            assert(fixture::first_wrong(buffer@, pattern(), offset as int, at as int));
            Err(reason)
        },
    }
}

/// The name of a test between two endpoints.
pub fn test_id(client: SocketAddr, server: SocketAddr) -> (text: String)
    ensures
        text@ == fixture::test_name("tcp"@, client, server),
{
    fixture::name_test("tcp", client, server)
}

/// The bytes that are moved at a time.
pub const CHUNK_SIZE: usize = 65536;

/// The server's count of bytes with those of one more read.
pub fn count_received(count: u64, read: usize) -> (r: Result<u64, String>)
    ensures
        match r {
            Ok(n) => n == count + read,
            Err(reason) => count + read > u64::MAX && reason@
                == "TCP server received-byte counter overflow"@,
        },
{
    match count.checked_add(read as u64) {
        Some(n) => Ok(n),
        None => Err("TCP server received-byte counter overflow".to_owned()),
    }
}

/// The server's count of bytes with those of one more write.
pub fn count_sent(count: u64, written: usize) -> (r: Result<u64, String>)
    ensures
        match r {
            Ok(n) => n == count + written,
            Err(reason) => count + written > u64::MAX && reason@
                == "TCP server sent-byte counter overflow"@,
        },
{
    match count.checked_add(written as u64) {
        Some(n) => Ok(n),
        None => Err("TCP server sent-byte counter overflow".to_owned()),
    }
}

/// What the client has verified once one more read came back.
pub fn take_echo(planned: u64, received: u64, read: &[u8]) -> (r: Result<u64, String>)
    requires
        received + read@.len() <= planned,
    ensures
        match r {
            Ok(n) => read@.len() > 0 && n == received + read@.len() && read@ == fixture::stretch(
                pattern(),
                received as int,
                read@.len(),
            ),
            Err(reason) => if read@.len() == 0 {
                reason@ == "TCP echo ended after "@ + text::decimal(received as nat) + " of "@
                    + text::decimal(planned as nat) + " bytes"@
            } else {
                exists|at: int|
                    {
                        &&& #[trigger] fixture::first_wrong(read@, pattern(), received as int, at)
                        &&& reason@ == wrong_text(
                            received + at,
                            fixture::byte_at(pattern(), received + at),
                            read@[at],
                        )
                    }
            },
        },
{
    if read.len() == 0 {
        let mut reason = "TCP echo ended after ".to_owned();
        text::put_number(&mut reason, received);
        reason.append(" of ");
        text::put_number(&mut reason, planned);
        reason.append(" bytes");
        return Err(reason);
    }
    match verify_pattern(read, received) {
        Ok(_) => Ok(received + read.len() as u64),
        Err(reason) => Err(reason),
    }
}

/// The byte at a position of the stream is 31 times the position and 17, less all that 251 divides.
pub proof fn law_bytes_of_the_stream(position: u32)
    ensures
        fixture::byte_at(pattern(), position as int) == (31 * position + 17) % 251,
{
    fixture::law_bytes_of_a_pattern(pattern(), position as u64);
    assert(position * pattern().factor == 31 * position) by (nonlinear_arith)
        requires
            pattern().factor == 31,
    ;
}

} // verus!
