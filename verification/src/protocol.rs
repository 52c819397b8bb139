//! The wire protocol shared by server and client: message types, the
//! length-prefixed framing, and the pairing proof.

pub mod modifiers;

use crate::crypto::{sha256, sha256_digest};
use vstd::prelude::*;
use vstd::utf8::encode_utf8;

verus! {

/// Wire protocol version. Bumped whenever the `Envelope` layout changes.
pub const PROTOCOL_VERSION: &'static str = "0.2.0";

pub const DEFAULT_CONTROL_PORT: u16 = 4000;

pub const DEFAULT_FILE_PORT: u16 = 4001;

pub const MDNS_SERVICE_TYPE: &'static str = "_kvm-rs._tcp.local.";

/// Upper bound for a single framed message.
pub const MAX_ENVELOPE_SIZE: usize = 10485760;

/// Capabilities that a server can advertise.
#[derive(Clone, Debug, PartialEq, Eq, Structural)]
pub struct Caps {
    pub clipboard: bool,
    pub file_transfer: bool,
    pub internet_share: bool,
}

impl Default for Caps {
    fn default() -> (c: Self)
        ensures
            c.clipboard && c.file_transfer && !c.internet_share,
    {
        Caps { clipboard: true, file_transfer: true, internet_share: false }
    }
}

/// Mouse buttons.
#[derive(Clone, Copy, Debug, PartialEq, Eq, Structural)]
pub enum MouseButton {
    Left,
    Right,
    Middle,
    Back,
    Forward,
}

/// Input events (keyboard and mouse).
#[derive(Clone, Debug, PartialEq, Eq, Structural)]
pub enum Event {
    /// Relative mouse movement.
    MouseDelta { dx: i32, dy: i32 },
    MouseButtonPress(MouseButton),
    MouseButtonRelease(MouseButton),
    /// Mouse wheel scroll.
    Wheel { delta_x: i32, delta_y: i32 },
    /// Key press with its canonical code and the modifier bits held.
    KeyPress { code: u32, modifiers: u8 },
    /// Key release with its canonical code and the modifier bits held.
    KeyRelease { code: u32, modifiers: u8 },
    /// Release every key and mouse button held on the receiving side.
    ReleaseAll,
}

/// Every protocol message. File-transfer ids are the 128-bit value of the
/// transfer's UUID.
#[derive(Clone, Debug)]
pub enum Envelope {
    /// Initial handshake from client to server.
    Hello { name: String, version: String, caps: Caps },
    /// Server acknowledges the hello.
    HelloAck { file_transfer_port: u16, server_name: String },
    /// Client requests pairing / authenticates.
    PairRequest { nonce: [u8; 16], fingerprint: String, proof: [u8; 32] },
    PairAccept,
    PairReject { reason: String },
    /// Toggle input forwarding on/off.
    ToggleForward(bool),
    Input(Event),
    ClipboardSet { text: String },
    FileOffer { id: u128, name: String, size: u64, sha256: [u8; 32] },
    FileAccept { id: u128, start_offset: u64 },
    FileReject { id: u128, reason: String },
    FileComplete { id: u128 },
    Ping(u64),
    Pong(u64),
    Error(String),
    Goodbye,
}

/// Protocol-level failures decided by the library (transport and encoding
/// failures are reported by the code that performs the I/O).
#[derive(Clone, Debug, PartialEq, Eq)]
pub enum ProtocolError {
    InvalidMessage,
    VersionMismatch,
    PairingRejected(String),
    ConnectionClosed,
}

// ---------------------------------------------------------------------
// Framing: a 4-byte big-endian length, then the encoded envelope.
// ---------------------------------------------------------------------

/// Big-endian bytes of a 32-bit length.
pub open spec fn be_u32_bytes(n: u32) -> Seq<u8> {
    seq![
        (n / 0x1000000) as u8,
        (n / 0x10000 % 0x100) as u8,
        (n / 0x100 % 0x100) as u8,
        (n % 0x100) as u8,
    ]
}

/// The value of four big-endian bytes.
pub open spec fn be_u32_value(b: Seq<u8>) -> int {
    b[0] * 0x1000000 + b[1] * 0x10000 + b[2] * 0x100 + b[3]
}

/// The frame that carries an encoded envelope `data`.
pub open spec fn spec_frame(data: Seq<u8>) -> Seq<u8> {
    be_u32_bytes(data.len() as u32) + data
}

/// Decoding the big-endian bytes of `n` gives `n` back.
pub proof fn lemma_be_u32_roundtrip(n: u32)
    ensures
        be_u32_bytes(n).len() == 4,
        be_u32_value(be_u32_bytes(n)) == n,
{
    let b = be_u32_bytes(n);
    assert(b[0] == n / 0x1000000);
    assert(b[1] == n / 0x10000 % 0x100);
    assert(b[2] == n / 0x100 % 0x100);
    assert(b[3] == n % 0x100);
    assert(n / 0x1000000 * 0x1000000 + n / 0x10000 % 0x100 * 0x10000 + n / 0x100 % 0x100 * 0x100
        + n % 0x100 == n) by (nonlinear_arith);
}

/// Frames an encoded envelope: the 4-byte big-endian length, then the
/// bytes. Payloads above `MAX_ENVELOPE_SIZE` are refused.
pub fn frame_payload(data: &[u8]) -> (r: Result<Vec<u8>, ProtocolError>)
    ensures
        data@.len() > MAX_ENVELOPE_SIZE ==> r == Err::<Vec<u8>, ProtocolError>(
            ProtocolError::InvalidMessage,
        ),
        data@.len() <= MAX_ENVELOPE_SIZE ==> (r matches Ok(f) && f@ == spec_frame(data@)),
{
    if data.len() > MAX_ENVELOPE_SIZE {
        return Err(ProtocolError::InvalidMessage);
    }
    let len = data.len() as u32;
    let mut out: Vec<u8> = Vec::with_capacity(4 + data.len());
    out.push((len / 0x1000000) as u8);
    out.push((len / 0x10000 % 0x100) as u8);
    out.push((len / 0x100 % 0x100) as u8);
    out.push((len % 0x100) as u8);
    let mut i: usize = 0;
    while i < data.len()
        invariant
            i <= data@.len(),
            data@.len() <= MAX_ENVELOPE_SIZE,
            len == data@.len(),
            out@ == be_u32_bytes(len) + data@.take(i as int),
        decreases data@.len() - i,
    {
        out.push(data[i]);
        proof {
            assert(data@.take(i as int).push(data@[i as int]) =~= data@.take(i + 1));
        }
        i = i + 1;
    }
    proof {
        assert(data@.take(data@.len() as int) =~= data@);
    }
    Ok(out)
}

/// Reads a frame header: the big-endian length that follows it, refused
/// when above `MAX_ENVELOPE_SIZE`.
pub fn frame_length(header: &[u8; 4]) -> (r: Result<usize, ProtocolError>)
    ensures
        be_u32_value(header@) > MAX_ENVELOPE_SIZE ==> r == Err::<usize, ProtocolError>(
            ProtocolError::InvalidMessage,
        ),
        be_u32_value(header@) <= MAX_ENVELOPE_SIZE ==> r == Ok::<usize, ProtocolError>(
            be_u32_value(header@) as usize,
        ),
{
    let n: u32 = (header[0] as u32) * 0x1000000 + (header[1] as u32) * 0x10000 + (header[2] as u32)
        * 0x100 + (header[3] as u32);
    if n as usize > MAX_ENVELOPE_SIZE {
        Err(ProtocolError::InvalidMessage)
    } else {
        Ok(n as usize)
    }
}

/// A framed envelope's header gives back the payload's length, and the
/// payload follows it unchanged.
pub proof fn lemma_frame_roundtrip(data: Seq<u8>)
    requires
        data.len() <= MAX_ENVELOPE_SIZE,
    ensures
        spec_frame(data).len() == 4 + data.len(),
        be_u32_value(spec_frame(data).take(4)) == data.len(),
        spec_frame(data).skip(4) == data,
{
    lemma_be_u32_roundtrip(data.len() as u32);
    assert(spec_frame(data).take(4) =~= be_u32_bytes(data.len() as u32));
    assert(spec_frame(data).skip(4) =~= data);
}

// ---------------------------------------------------------------------
// Pairing proof
// ---------------------------------------------------------------------

/// The bytes hashed into a pairing proof:
/// `pin || 0x00 || nonce || 0x00 || fingerprint`, strings as UTF-8.
pub open spec fn pairing_message(pin: Seq<char>, nonce: Seq<u8>, fingerprint: Seq<char>) -> Seq<
    u8,
> {
    encode_utf8(pin) + seq![0u8] + nonce + seq![0u8] + encode_utf8(fingerprint)
}

/// The proof a client with `pin` sends for `nonce` and `fingerprint`.
pub open spec fn spec_pairing_proof(pin: Seq<char>, nonce: Seq<u8>, fingerprint: Seq<char>) -> Seq<
    u8,
> {
    sha256_digest(pairing_message(pin, nonce, fingerprint))
}

fn extend_bytes(out: &mut Vec<u8>, bytes: &[u8])
    ensures
        final(out)@ == old(out)@ + bytes@,
{
    let mut i: usize = 0;
    while i < bytes.len()
        invariant
            i <= bytes@.len(),
            out@ == old(out)@ + bytes@.take(i as int),
        decreases bytes@.len() - i,
    {
        out.push(bytes[i]);
        proof {
            assert(bytes@.take(i as int).push(bytes@[i as int]) =~= bytes@.take(i + 1));
        }
        i = i + 1;
    }
    proof {
        assert(bytes@.take(bytes@.len() as int) =~= bytes@);
    }
}

/// Computes the pairing proof `SHA-256(pin || 0 || nonce || 0 || fingerprint)`.
/// The PIN is never sent; the server recomputes the proof with its own PIN.
pub fn pairing_proof(pin: &str, nonce: &[u8; 16], fingerprint: &str) -> (proof: [u8; 32])
    ensures
        proof@ == spec_pairing_proof(pin@, nonce@, fingerprint@),
{
    let mut message: Vec<u8> = Vec::new();
    extend_bytes(&mut message, pin.as_bytes());
    message.push(0u8);
    extend_bytes(&mut message, nonce);
    message.push(0u8);
    extend_bytes(&mut message, fingerprint.as_bytes());
    proof {
        assert(message@ =~= pairing_message(pin@, nonce@, fingerprint@));
    }
    sha256(message.as_slice())
}

/// Constant-time comparison of two proofs: every byte is compared, and the
/// differences are gathered into one accumulator.
pub fn proof_matches(a: &[u8; 32], b: &[u8; 32]) -> (same: bool)
    ensures
        same == (a@ == b@),
{
    let mut diff: u8 = 0;
    let mut i: usize = 0;
    while i < 32
        invariant
            i <= 32,
            a@.len() == 32,
            b@.len() == 32,
            (diff == 0) == (forall|j: int| 0 <= j < i ==> a@[j] == b@[j]),
        decreases 32 - i,
    {
        let x = a[i];
        let y = b[i];
        assert((diff | (x ^ y)) == 0u8 <==> (diff == 0u8 && x == y)) by (bit_vector);
        diff = diff | (x ^ y);
        i = i + 1;
    }
    proof {
        if diff == 0 {
            assert(a@ =~= b@);
        }
    }
    diff == 0
}

} // verus!
