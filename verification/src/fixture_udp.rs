//! The UDP side of the fixture.
use crate::address::SocketAddr;
use crate::fixture;
use crate::fixture::Pattern;
use crate::text;
use vstd::prelude::*;

verus! {

/// What the UDP stream is made from.
pub open spec fn pattern() -> Pattern {
    Pattern { factor: 47, term: 29 }
}

fn stream() -> (made: Pattern)
    ensures
        made == pattern(),
{
    Pattern { factor: 47, term: 29 }
}

/// The byte at a place of the stream.
pub fn pattern_byte(position: u64) -> (byte: u8)
    ensures
        byte == fixture::byte_at(pattern(), position as int),
{
    stream().byte(position)
}

/// Fills a buffer with the stream from an offset on.
pub fn fill_pattern(buffer: &mut [u8], offset: u64)
    requires
        offset + old(buffer)@.len() <= fixture::WORD,
    ensures
        final(buffer)@ == fixture::stretch(pattern(), offset as int, old(buffer)@.len()),
{
    stream().fill(buffer, offset);
}

/// What is said of a byte that came back wrong.
pub open spec fn wrong_text(position: int, expected: u8, actual: u8) -> Seq<char> {
    "UDP echo verification failed at byte "@ + text::decimal(position as nat) + ": expected "@
        + text::decimal(expected as nat) + ", got "@ + text::decimal(actual as nat)
}

/// What is said of a byte that came back wrong.
fn wrong_reason(position: u64, expected: u8, actual: u8) -> (text: String)
    ensures
        text@ == wrong_text(position as int, expected, actual),
{
    let mut text = "UDP echo verification failed at byte ".to_owned();
    text::put_number(&mut text, position as u64);
    text.append(": expected ");
    text::put_number(&mut text, expected as u64);
    text.append(", got ");
    text::put_number(&mut text, actual as u64);
    text
}

/// Accepts a buffer that holds the stream from an offset on; otherwise names the first wrong byte.
pub fn verify_pattern(buffer: &[u8], offset: u64) -> (r: Result<(), String>)
    requires
        offset + buffer@.len() <= fixture::WORD,
    ensures
        match r {
            Ok(_) => buffer@ == fixture::stretch(pattern(), offset as int, buffer@.len()),
            Err(reason) => exists|at: int|
                {
                    &&& #[trigger] fixture::first_wrong(buffer@, pattern(), offset as int, at)
                    &&& reason@ == wrong_text(
                        offset + at,
                        fixture::byte_at(pattern(), offset + at),
                        buffer@[at],
                    )
                },
        },
{
    match stream().find_wrong(buffer, offset) {
        None => Ok(()),
        Some(at) => {
            let position: u64 = offset + at as u64;
            let reason = wrong_reason(position, pattern_byte(position), buffer[at]);
            assert(fixture::first_wrong(buffer@, pattern(), offset as int, at as int));
            Err(reason)
        },
    }
}

/// The name of a test between two endpoints.
pub fn test_id(client: SocketAddr, server: SocketAddr) -> (text: String)
    ensures
        text@ == fixture::test_name("udp"@, client, server),
{
    fixture::name_test("udp", client, server)
}

/// The bytes of a datagram.
pub const DATAGRAM_SIZE: usize = 60000;

/// What a server has taken in and sent back.
#[derive(Debug, Clone, Copy, PartialEq, Eq, Structural)]
pub struct EchoServer {
    pub peer: Option<SocketAddr>,
    pub datagrams: u64,
    pub bytes_received: u64,
    pub bytes_sent: u64,
}

impl EchoServer {
    /// A server that has heard from nobody.
    pub fn new() -> (server: EchoServer)
        ensures
            server == (EchoServer { peer: None, datagrams: 0, bytes_received: 0, bytes_sent: 0 }),
    {
        EchoServer { peer: None, datagrams: 0, bytes_received: 0, bytes_sent: 0 }
    }

    /// Takes in a datagram's sender; a second one is refused.
    pub fn hear(&mut self, source: SocketAddr) -> (r: Result<(), String>)
        ensures
            match r {
                Ok(_) => (old(self).peer is None || old(self).peer == Some(source)) && *final(self)
                    == (EchoServer { peer: Some(source), ..*old(self) }),
                Err(reason) => old(self).peer is Some && old(self).peer != Some(source)
                    && *final(self) == *old(self) && reason@
                    == "UDP fixture received an unexpected second peer: "@
                    + crate::address::socket_text(source),
            },
    {
        if let Some(expected) = self.peer {
            if expected != source {
                let mut reason = "UDP fixture received an unexpected second peer: ".to_owned();
                reason.append(source.text().as_str());
                return Err(reason);
            }
        }
        self.peer = Some(source);
        Ok(())
    }

    /// Counts a datagram that was sent back; one that was cut short is refused. A server that has
    /// sent back what it took in still has.
    pub fn echoed(&mut self, received: usize, sent: usize) -> (r: Result<(), String>)
        requires
            old(self).datagrams < u64::MAX,
            old(self).bytes_received + received <= u64::MAX,
            old(self).bytes_sent + sent <= u64::MAX,
        ensures
            match r {
                Ok(_) => sent == received && *final(self) == (EchoServer {
                    peer: old(self).peer,
                    datagrams: (old(self).datagrams + 1) as u64,
                    bytes_received: (old(self).bytes_received + received) as u64,
                    bytes_sent: (old(self).bytes_sent + sent) as u64,
                }),
                Err(reason) => sent != received && *final(self) == *old(self) && reason@
                    == "UDP server sent "@ + text::decimal(sent as nat) + " of "@ + text::decimal(
                    received as nat,
                ) + " datagram bytes"@,
            },
            old(self).bytes_received == old(self).bytes_sent ==> final(self).bytes_received
                == final(self).bytes_sent,
    {
        if sent != received {
            let mut reason = "UDP server sent ".to_owned();
            text::put_number(&mut reason, sent as u64);
            reason.append(" of ");
            text::put_number(&mut reason, received as u64);
            reason.append(" datagram bytes");
            return Err(reason);
        }
        self.datagrams = self.datagrams + 1;
        self.bytes_received = self.bytes_received + received as u64;
        self.bytes_sent = self.bytes_sent + sent as u64;
        Ok(())
    }

    /// The one peer, once the server has waited long enough.
    pub fn finish(&self) -> (r: Result<SocketAddr, String>)
        ensures
            match r {
                Ok(peer) => self.peer == Some(peer),
                Err(reason) => self.peer is None && reason@
                    == "UDP server timed out before receiving traffic"@,
            },
    {
        match self.peer {
            Some(peer) => Ok(peer),
            None => Err("UDP server timed out before receiving traffic".to_owned()),
        }
    }
}

/// Accepts that a datagram was sent whole.
pub fn check_sent(length: usize, sent: usize) -> (r: Result<(), String>)
    ensures
        match r {
            Ok(_) => sent == length,
            Err(reason) => sent != length && reason@ == "UDP client sent "@ + text::decimal(
                sent as nat,
            ) + " of "@ + text::decimal(length as nat) + " datagram bytes"@,
        },
{
    if sent != length {
        let mut reason = "UDP client sent ".to_owned();
        text::put_number(&mut reason, sent as u64);
        reason.append(" of ");
        text::put_number(&mut reason, length as u64);
        reason.append(" datagram bytes");
        return Err(reason);
    }
    Ok(())
}

/// Accepts a datagram that came back: it is as long as what was sent, and holds the stream.
pub fn take_echo(length: usize, received: &[u8], offset: u64) -> (r: Result<(), String>)
    requires
        offset + received@.len() <= fixture::WORD,
    ensures
        match r {
            Ok(_) => received@.len() == length && received@ == fixture::stretch(
                pattern(),
                offset as int,
                received@.len(),
            ),
            Err(reason) => if received@.len() != length {
                reason@ == "UDP echo length mismatch: expected "@ + text::decimal(length as nat)
                    + ", got "@ + text::decimal(received@.len())
            } else {
                exists|at: int|
                    {
                        &&& #[trigger] fixture::first_wrong(received@, pattern(), offset as int, at)
                        &&& reason@ == wrong_text(
                            offset + at,
                            fixture::byte_at(pattern(), offset + at),
                            received@[at],
                        )
                    }
            },
        },
{
    if received.len() != length {
        let mut reason = "UDP echo length mismatch: expected ".to_owned();
        text::put_number(&mut reason, length as u64);
        reason.append(", got ");
        text::put_number(&mut reason, received.len() as u64);
        return Err(reason);
    }
    verify_pattern(received, offset)
}

/// The byte at a position of the stream is 47 times the position and 29, less all that 251 divides.
pub proof fn law_bytes_of_the_stream(position: u32)
    ensures
        fixture::byte_at(pattern(), position as int) == (47 * position + 29) % 251,
{
    fixture::law_bytes_of_a_pattern(pattern(), position as u64);
    assert(position * pattern().factor == 47 * position) by (nonlinear_arith)
        requires
            pattern().factor == 47,
    ;
}

} // verus!
