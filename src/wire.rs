//! The bytes exchanged over the bus: command frames sent by the host and the
//! identity replies sent back by a peripheral.
#![allow(non_camel_case_types)]

use vstd::prelude::*;

verus! {

/// Size of a whole command frame on the bus: one opcode byte and the payload.
pub const MAX_I2C_MESSAGE_LEN: usize = 256;

/// Capacity of a command frame's payload.
pub const PARAMS_LEN: usize = 255;

/// Size of an encoded identity reply: identifier, padding and two nonces.
pub const REPLY_LEN: usize = 24;

/// The operations a command frame can ask of a peripheral.
#[derive(Clone, Copy, Debug, PartialEq, Eq, Structural)]
pub enum Opcode {
    NoCommand,
    Scan,
    Validate,
    Boot,
    Attest,
}

impl Opcode {
    /// The byte that stands for the opcode at the head of a frame.
    pub open spec fn spec_byte(self) -> u8 {
        match self {
            Opcode::NoCommand => 0,
            Opcode::Scan => 1,
            Opcode::Validate => 2,
            Opcode::Boot => 3,
            Opcode::Attest => 4,
        }
    }

    /// The opcode that a frame's first byte names, if any.
    pub open spec fn spec_from_byte(b: u8) -> Option<Opcode> {
        if b == 0 {
            Some(Opcode::NoCommand)
        } else if b == 1 {
            Some(Opcode::Scan)
        } else if b == 2 {
            Some(Opcode::Validate)
        } else if b == 3 {
            Some(Opcode::Boot)
        } else if b == 4 {
            Some(Opcode::Attest)
        } else {
            None
        }
    }

    pub fn to_byte(self) -> (r: u8)
        ensures
            r == self.spec_byte(),
    {
        match self {
            Opcode::NoCommand => 0,
            Opcode::Scan => 1,
            Opcode::Validate => 2,
            Opcode::Boot => 3,
            Opcode::Attest => 4,
        }
    }

    pub fn from_byte(b: u8) -> (r: Option<Opcode>)
        ensures
            r == Self::spec_from_byte(b),
    {
        if b == 0 {
            Some(Opcode::NoCommand)
        } else if b == 1 {
            Some(Opcode::Scan)
        } else if b == 2 {
            Some(Opcode::Validate)
        } else if b == 3 {
            Some(Opcode::Boot)
        } else if b == 4 {
            Some(Opcode::Attest)
        } else {
            None
        }
    }
}

/// The eight bytes of `n`, most significant first.
pub open spec fn be_bytes_u64(n: u64) -> Seq<u8> {
    seq![
        (n >> 56u64) as u8,
        (n >> 48u64) as u8,
        (n >> 40u64) as u8,
        (n >> 32u64) as u8,
        (n >> 24u64) as u8,
        (n >> 16u64) as u8,
        (n >> 8u64) as u8,
        n as u8,
    ]
}

/// The four bytes of `n`, most significant first.
pub open spec fn be_bytes_u32(n: u32) -> Seq<u8> {
    seq![(n >> 24u32) as u8, (n >> 16u32) as u8, (n >> 8u32) as u8, n as u8]
}

/// The big-endian 64-bit value held by `s[k..k + 8]`.
pub open spec fn be_u64_at(s: Seq<u8>, k: int) -> u64 {
    ((s[k] as u64) << 56u64) | ((s[k + 1] as u64) << 48u64) | ((s[k + 2] as u64) << 40u64) | ((
    s[k + 3] as u64) << 32u64) | ((s[k + 4] as u64) << 24u64) | ((s[k + 5] as u64) << 16u64) | ((
    s[k + 6] as u64) << 8u64) | (s[k + 7] as u64)
}

/// The big-endian 32-bit value held by `s[k..k + 4]`.
pub open spec fn be_u32_at(s: Seq<u8>, k: int) -> u32 {
    ((s[k] as u32) << 24u32) | ((s[k + 1] as u32) << 16u32) | ((s[k + 2] as u32) << 8u32) | (s[k
        + 3] as u32)
}

/// `n` zero bytes.
pub open spec fn zeros(n: nat) -> Seq<u8> {
    Seq::new(n, |i: int| 0u8)
}

/// Reading back the eight bytes of a 64-bit value gives the value.
pub proof fn lemma_be_u64_round_trip(n: u64)
    ensures
        be_u64_at(be_bytes_u64(n), 0) == n,
{
    let s = be_bytes_u64(n);
    assert(s[0] == (n >> 56u64) as u8);
    assert(s[7] == n as u8);
    assert(((((n >> 56u64) as u8) as u64) << 56u64) | ((((n >> 48u64) as u8) as u64) << 48u64)
        | ((((n >> 40u64) as u8) as u64) << 40u64) | ((((n >> 32u64) as u8) as u64) << 32u64) | ((((
    n >> 24u64) as u8) as u64) << 24u64) | ((((n >> 16u64) as u8) as u64) << 16u64) | ((((n
        >> 8u64) as u8) as u64) << 8u64) | ((n as u8) as u64) == n) by (bit_vector);
}

/// Reading back the four bytes of a 32-bit value gives the value.
pub proof fn lemma_be_u32_round_trip(n: u32)
    ensures
        be_u32_at(be_bytes_u32(n), 0) == n,
{
    let s = be_bytes_u32(n);
    assert(s[0] == (n >> 24u32) as u8);
    assert(s[3] == n as u8);
    assert(((((n >> 24u32) as u8) as u32) << 24u32) | ((((n >> 16u32) as u8) as u32) << 16u32)
        | ((((n >> 8u32) as u8) as u32) << 8u32) | ((n as u8) as u32) == n) by (bit_vector);
}

/// Appends the eight bytes of `n`, most significant first.
pub fn push_u64_be(v: &mut Vec<u8>, n: u64)
    ensures
        final(v)@ == old(v)@ + be_bytes_u64(n),
{
    v.push((n >> 56u64) as u8);
    v.push((n >> 48u64) as u8);
    v.push((n >> 40u64) as u8);
    v.push((n >> 32u64) as u8);
    v.push((n >> 24u64) as u8);
    v.push((n >> 16u64) as u8);
    v.push((n >> 8u64) as u8);
    v.push(n as u8);
    assert(final(v)@ =~= old(v)@ + be_bytes_u64(n));
}

/// Appends the four bytes of `n`, most significant first.
pub fn push_u32_be(v: &mut Vec<u8>, n: u32)
    ensures
        final(v)@ == old(v)@ + be_bytes_u32(n),
{
    v.push((n >> 24u32) as u8);
    v.push((n >> 16u32) as u8);
    v.push((n >> 8u32) as u8);
    v.push(n as u8);
    assert(final(v)@ =~= old(v)@ + be_bytes_u32(n));
}

/// Reads the big-endian 64-bit value at offset `k`.
pub fn read_u64_be(b: &[u8], k: usize) -> (r: u64)
    requires
        k + 8 <= b@.len(),
    ensures
        r == be_u64_at(b@, k as int),
{
    ((b[k] as u64) << 56u64) | ((b[k + 1] as u64) << 48u64) | ((b[k + 2] as u64) << 40u64) | ((
    b[k + 3] as u64) << 32u64) | ((b[k + 4] as u64) << 24u64) | ((b[k + 5] as u64) << 16u64) | ((
    b[k + 6] as u64) << 8u64) | (b[k + 7] as u64)
}

/// Reads the big-endian 32-bit value at offset `k`.
pub fn read_u32_be(b: &[u8], k: usize) -> (r: u32)
    requires
        k + 4 <= b@.len(),
    ensures
        r == be_u32_at(b@, k as int),
{
    ((b[k] as u32) << 24u32) | ((b[k + 1] as u32) << 16u32) | ((b[k + 2] as u32) << 8u32) | (b[k
        + 3] as u32)
}

/// Appends `n` zero bytes.
fn push_zeros(v: &mut Vec<u8>, n: usize)
    ensures
        final(v)@ == old(v)@ + zeros(n as nat),
{
    let ghost start = v@;
    let mut i: usize = 0;
    while i < n
        invariant
            i <= n,
            v@ == start + zeros(i as nat),
        decreases n - i,
    {
        v.push(0u8);
        i = i + 1;
        assert(v@ =~= start + zeros(i as nat));
    }
}

/// Payload bytes after the leading 64-bit value of a request.
pub const PAYLOAD_TAIL: usize = 247;

/// A frame as sent on the bus: the opcode byte, then the fixed-capacity payload.
pub struct command_message {
    pub opcode: u8,
    pub params: Vec<u8>,
}

/// The bytes of a request carrying `op` and, at the head of the payload, `n`.
pub open spec fn request_frame(op: Opcode, n: u64) -> Seq<u8> {
    seq![op.spec_byte()] + be_bytes_u64(n) + zeros(PAYLOAD_TAIL as nat)
}

impl command_message {
    /// The payload has the capacity that both ends agree on.
    pub open spec fn wf(&self) -> bool {
        self.params@.len() == PARAMS_LEN
    }

    /// The frame as it stands on the bus.
    pub open spec fn spec_bytes(&self) -> Seq<u8> {
        seq![self.opcode] + self.params@
    }

    /// A frame for `op` whose payload starts with `n`, most significant byte
    /// first, and is zero after it.
    pub fn with_value(op: Opcode, n: u64) -> (r: Self)
        ensures
            r.wf(),
            r.opcode == op.spec_byte(),
            r.spec_bytes() == request_frame(op, n),
    {
        let mut params: Vec<u8> = Vec::new();
        push_u64_be(&mut params, n);
        push_zeros(&mut params, PAYLOAD_TAIL);
        let r = command_message { opcode: op.to_byte(), params };
        assert(r.spec_bytes() =~= request_frame(op, n));
        r
    }

    /// The value at the head of the payload, read most significant byte first.
    pub fn value(&self) -> (r: u64)
        requires
            self.wf(),
        ensures
            r == be_u64_at(self.params@, 0),
    {
        read_u64_be(self.params.as_slice(), 0)
    }

    /// The frame's bytes, exactly `MAX_I2C_MESSAGE_LEN` of them.
    pub fn to_bytes(&self) -> (r: Vec<u8>)
        requires
            self.wf(),
        ensures
            r@ == self.spec_bytes(),
            r@.len() == MAX_I2C_MESSAGE_LEN,
    {
        let mut r: Vec<u8> = Vec::new();
        r.push(self.opcode);
        let mut i: usize = 0;
        while i < self.params.len()
            invariant
                self.wf(),
                i <= self.params@.len(),
                r@ == seq![self.opcode] + self.params@.subrange(0, i as int),
            decreases self.params@.len() - i,
        {
            r.push(self.params[i]);
            i = i + 1;
            assert(r@ =~= seq![self.opcode] + self.params@.subrange(0, i as int));
        }
        assert(self.params@.subrange(0, i as int) =~= self.params@);
        r
    }

    /// The frame that `b` holds; `None` unless `b` is exactly one frame long.
    pub fn from_bytes(b: &[u8]) -> (r: Option<Self>)
        ensures
            r is Some <==> b@.len() == MAX_I2C_MESSAGE_LEN,
            r matches Some(m) ==> m.wf() && m.spec_bytes() == b@,
    {
        if b.len() != MAX_I2C_MESSAGE_LEN {
            return None;
        }
        let mut params: Vec<u8> = Vec::new();
        let mut i: usize = 1;
        while i < b.len()
            invariant
                b@.len() == MAX_I2C_MESSAGE_LEN,
                1 <= i <= b@.len(),
                params@ == b@.subrange(1, i as int),
            decreases b@.len() - i,
        {
            params.push(b[i]);
            i = i + 1;
            assert(params@ =~= b@.subrange(1, i as int));
        }
        let m = command_message { opcode: b[0], params };
        assert(m.spec_bytes() =~= b@);
        Some(m)
    }
}

/// The identity reply: the peripheral's identifier, the host's nonce echoed
/// back, and a second nonce chosen by the peripheral.
#[derive(Clone, Copy, Debug, PartialEq, Eq, Structural)]
pub struct validate_message {
    pub component_id: u32,
    pub nonce1: u64,
    pub nonce2: u64,
}

/// The reply that the first `REPLY_LEN` bytes of `s` encode; `None` when `s` is
/// shorter than that.
pub open spec fn spec_decode_reply(s: Seq<u8>) -> Option<validate_message> {
    if s.len() < REPLY_LEN {
        None
    } else {
        Some(
            validate_message {
                component_id: be_u32_at(s, 0),
                nonce1: be_u64_at(s, 8),
                nonce2: be_u64_at(s, 16),
            },
        )
    }
}

impl validate_message {
    /// The identifier at offset 0, four bytes of padding, then the two nonces
    /// at offsets 8 and 16, every field most significant byte first.
    pub open spec fn spec_bytes(self) -> Seq<u8> {
        be_bytes_u32(self.component_id) + zeros(4) + be_bytes_u64(self.nonce1) + be_bytes_u64(
            self.nonce2,
        )
    }

    pub fn to_bytes(&self) -> (r: Vec<u8>)
        ensures
            r@ == self.spec_bytes(),
    {
        let mut r: Vec<u8> = Vec::new();
        push_u32_be(&mut r, self.component_id);
        push_zeros(&mut r, 4);
        push_u64_be(&mut r, self.nonce1);
        push_u64_be(&mut r, self.nonce2);
        r
    }

    /// Decodes a reply; `None` when `b` is too short to hold one.
    pub fn from_bytes(b: &[u8]) -> (r: Option<validate_message>)
        ensures
            r == spec_decode_reply(b@),
    {
        if b.len() < REPLY_LEN {
            None
        } else {
            Some(
                validate_message {
                    component_id: read_u32_be(b, 0),
                    nonce1: read_u64_be(b, 8),
                    nonce2: read_u64_be(b, 16),
                },
            )
        }
    }
}

/// Decoding the bytes of a reply gives the reply back.
pub proof fn lemma_reply_round_trip(m: validate_message)
    ensures
        spec_decode_reply(m.spec_bytes()) == Some(m),
{
    let s = m.spec_bytes();
    lemma_be_u32_round_trip(m.component_id);
    lemma_be_u64_round_trip(m.nonce1);
    lemma_be_u64_round_trip(m.nonce2);
    assert(s.subrange(0, 4) =~= be_bytes_u32(m.component_id));
    assert(s.subrange(8, 16) =~= be_bytes_u64(m.nonce1));
    assert(s.subrange(16, 24) =~= be_bytes_u64(m.nonce2));
    assert(be_u32_at(s, 0) == be_u32_at(s.subrange(0, 4), 0));
    assert(be_u64_at(s, 8) == be_u64_at(s.subrange(8, 16), 0));
    assert(be_u64_at(s, 16) == be_u64_at(s.subrange(16, 24), 0));
}

/// A nonce as the firmware draws it: a random part and a time stamp.
#[derive(Clone, Copy, Debug, PartialEq, Eq, Structural)]
pub struct plain_nonce {
    pub rand: i32,
    pub timestamp: i32,
}

/// The registry of expected peripherals, as provisioned in flash: a tag, the
/// number of entries in use, and the identifier table.
pub struct flash_entry {
    pub flash_magic: u32,
    pub component_cnt: u32,
    pub component_ids: Vec<u32>,
}

impl flash_entry {
    /// The count of entries in use fits the identifier table.
    pub open spec fn wf(&self) -> bool {
        self.component_cnt as int <= self.component_ids@.len()
    }

    /// The expected identifiers, in registry order.
    pub open spec fn ids(&self) -> Seq<u32> {
        self.component_ids@.subrange(0, self.component_cnt as int)
    }

    /// The expected identifiers, in registry order.
    pub fn expected_ids(&self) -> (r: Vec<u32>)
        requires
            self.wf(),
        ensures
            r@ == self.ids(),
    {
        let n = self.component_cnt as usize;
        let mut r: Vec<u32> = Vec::new();
        let mut i: usize = 0;
        while i < n
            invariant
                self.wf(),
                n == self.component_cnt,
                i <= n,
                r@ == self.component_ids@.subrange(0, i as int),
            decreases n - i,
        {
            r.push(self.component_ids[i]);
            i = i + 1;
            assert(r@ =~= self.component_ids@.subrange(0, i as int));
        }
        r
    }
}

} // verus!
