//! The fixed binary wire format: a 12-byte header (8-byte magic protocol
//! id, 2-byte opcode, 2-byte payload length, all big-endian) followed by
//! an opcode-specific payload.
//!
//! `decode` accepts exactly the buffers `encode` produces: anything with a
//! short header, a wrong magic, an unknown opcode, or a length field that
//! does not match the trailing byte count is rejected.

use vstd::prelude::*;

verus! {

/// The fixed magic protocol id, sent big-endian in every packet.
pub const PROTOCOL_ID: u64 = 0xaefdb87fe753ba07;

/// Bytes of the fixed header: magic, opcode, payload length.
pub const HEADER_SIZE: usize = 12;

/// What a packet means; decides the payload's shape.
#[derive(Clone, Copy, Debug, PartialEq, Eq, Structural)]
pub enum Opcode {
    /// Tick barrier token; 8-byte big-endian tick counter payload.
    Sync,
    /// A heading change; 1-byte direction code payload.
    NewDirection,
    /// A freshly placed target; 2-byte row/column payload.
    NewTarget,
}

/// The 16-bit wire code of an opcode: 1 Sync, 2 NewDirection, 3 NewTarget.
pub open spec fn opcode_code(op: Opcode) -> u16 {
    match op {
        Opcode::Sync => 1,
        Opcode::NewDirection => 2,
        Opcode::NewTarget => 3,
    }
}

/// The opcode a 16-bit wire code stands for; every other code is unknown.
pub open spec fn opcode_of_code(value: u16) -> Option<Opcode> {
    if value == 1 {
        Some(Opcode::Sync)
    } else if value == 2 {
        Some(Opcode::NewDirection)
    } else if value == 3 {
        Some(Opcode::NewTarget)
    } else {
        None
    }
}

/// The eight bytes of `x`, most significant first.
pub open spec fn be_bytes_u64(x: u64) -> Seq<u8> {
    seq![
        (x >> 56) as u8,
        (x >> 48) as u8,
        (x >> 40) as u8,
        (x >> 32) as u8,
        (x >> 24) as u8,
        (x >> 16) as u8,
        (x >> 8) as u8,
        x as u8,
    ]
}

/// The two bytes of `x`, most significant first.
pub open spec fn be_bytes_u16(x: u16) -> Seq<u8> {
    seq![(x >> 8) as u8, x as u8]
}

/// The value read back from eight big-endian bytes.
pub open spec fn u64_from_be(b: Seq<u8>) -> u64 {
    ((b[0] as u64) << 56) | ((b[1] as u64) << 48) | ((b[2] as u64) << 40) | ((b[3] as u64) << 32)
        | ((b[4] as u64) << 24) | ((b[5] as u64) << 16) | ((b[6] as u64) << 8) | (b[7] as u64)
}

/// The value read back from two big-endian bytes.
pub open spec fn u16_from_be(b: Seq<u8>) -> u16 {
    ((b[0] as u16) << 8) | (b[1] as u16)
}

/// Reading the eight big-endian bytes of `x` gives `x` back.
pub proof fn lemma_u64_be_round_trip(x: u64)
    ensures
        u64_from_be(be_bytes_u64(x)) == x,
{
    assert((((x >> 56) as u8 as u64) << 56) | (((x >> 48) as u8 as u64) << 48)
        | (((x >> 40) as u8 as u64) << 40) | (((x >> 32) as u8 as u64) << 32)
        | (((x >> 24) as u8 as u64) << 24) | (((x >> 16) as u8 as u64) << 16)
        | (((x >> 8) as u8 as u64) << 8) | (x as u8 as u64) == x) by (bit_vector);
}

/// Reading the two big-endian bytes of `x` gives `x` back.
pub proof fn lemma_u16_be_round_trip(x: u16)
    ensures
        u16_from_be(be_bytes_u16(x)) == x,
{
    assert(((((x >> 8) as u8) as u16) << 8) | ((x as u8) as u16) == x) by (bit_vector);
}

/// The exact byte string that a packet with this opcode and payload is
/// sent as.
pub open spec fn spec_encode(op: Opcode, data: Seq<u8>) -> Seq<u8> {
    be_bytes_u64(PROTOCOL_ID) + be_bytes_u16(opcode_code(op)) + be_bytes_u16(data.len() as u16)
        + data
}

/// What a received buffer decodes to: the opcode and payload, or nothing
/// when the buffer is shorter than a header, the magic is wrong, the
/// opcode is unknown, or the declared payload length differs from the
/// actual trailing byte count.
pub open spec fn spec_decode(buf: Seq<u8>) -> Option<(Opcode, Seq<u8>)> {
    if buf.len() < HEADER_SIZE {
        None
    } else if u64_from_be(buf.subrange(0, 8)) != PROTOCOL_ID {
        None
    } else {
        match opcode_of_code(u16_from_be(buf.subrange(8, 10))) {
            None => None,
            Some(op) => {
                if u16_from_be(buf.subrange(10, 12)) as int != buf.len() - HEADER_SIZE {
                    None
                } else {
                    Some((op, buf.subrange(HEADER_SIZE as int, buf.len() as int)))
                }
            },
        }
    }
}

/// Law: the codec round-trips.  For every opcode and every payload that
/// fits the 16-bit length field, decoding an encoded packet gives back
/// exactly the opcode and payload bytes that went in.
pub proof fn lemma_packet_round_trip(op: Opcode, data: Seq<u8>)
    requires
        data.len() <= u16::MAX,
    ensures
        spec_decode(spec_encode(op, data)) == Some((op, data)),
{
    let buf = spec_encode(op, data);
    assert(buf.len() == HEADER_SIZE + data.len());
    assert(buf.subrange(0, 8) =~= be_bytes_u64(PROTOCOL_ID));
    lemma_u64_be_round_trip(PROTOCOL_ID);
    assert(buf.subrange(8, 10) =~= be_bytes_u16(opcode_code(op)));
    lemma_u16_be_round_trip(opcode_code(op));
    assert(buf.subrange(10, 12) =~= be_bytes_u16(data.len() as u16));
    lemma_u16_be_round_trip(data.len() as u16);
    assert(buf.subrange(HEADER_SIZE as int, buf.len() as int) =~= data);
}

/// Law: decoding always fails on a short buffer, a wrong magic, an
/// unknown opcode, or a length field that does not match the trailing
/// byte count — whatever else the buffer holds.
pub proof fn lemma_decode_rejects(buf: Seq<u8>)
    ensures
        buf.len() < HEADER_SIZE ==> spec_decode(buf) is None,
        buf.len() >= HEADER_SIZE && u64_from_be(buf.subrange(0, 8)) != PROTOCOL_ID
            ==> spec_decode(buf) is None,
        buf.len() >= HEADER_SIZE && opcode_of_code(u16_from_be(buf.subrange(8, 10))) is None
            ==> spec_decode(buf) is None,
        buf.len() >= HEADER_SIZE
            && u16_from_be(buf.subrange(10, 12)) as int != buf.len() - HEADER_SIZE
            ==> spec_decode(buf) is None,
{
}

/// The payload length a header declares: the big-endian 16-bit field at
/// bytes 10 and 11.  A receiver reads the fixed-size header first and
/// uses this to learn how many payload bytes follow.
pub fn declared_payload_len(header: &[u8]) -> (r: u16)
    requires
        header@.len() >= HEADER_SIZE,
    ensures
        r == u16_from_be(header@.subrange(10, 12)),
{
    let r: u16 = ((header[10] as u16) << 8) | (header[11] as u16);
    proof {
        assert(header@.subrange(10, 12)[0] == header@[10]);
        assert(header@.subrange(10, 12)[1] == header@[11]);
    }
    r
}

/// An ephemeral wire message: an opcode and its payload bytes.
pub struct Packet {
    opcode: Opcode,
    data: Vec<u8>,
}

impl Packet {
    /// The opcode, for contracts.
    pub closed spec fn op(&self) -> Opcode {
        self.opcode
    }

    /// The payload bytes, for contracts.
    pub closed spec fn payload(&self) -> Seq<u8> {
        self.data@
    }

    /// The payload always fits the 16-bit length field.
    pub open spec fn wf(&self) -> bool {
        self.payload().len() <= u16::MAX
    }

    /// An empty packet; `size` is only a capacity hint for the payload.
    pub fn new(opcode: Opcode, size: usize) -> (r: Packet)
        ensures
            r.op() == opcode,
            r.payload() == Seq::<u8>::empty(),
            r.wf(),
    {
        let r = Packet { opcode, data: Vec::with_capacity(size) };
        proof {
            assert(r.payload() =~= Seq::<u8>::empty());
        }
        r
    }

    /// Append bytes to the payload.  The caller keeps the payload within
    /// the 16-bit length field's range; the packets of this protocol stay
    /// far below it.
    pub fn push_data(&mut self, data: &[u8])
        requires
            old(self).payload().len() + data@.len() <= u16::MAX,
        ensures
            final(self).op() == old(self).op(),
            final(self).payload() == old(self).payload() + data@,
            final(self).wf(),
    {
        self.data.extend_from_slice(data);
    }

    /// The opcode.
    pub fn opcode(&self) -> (r: Opcode)
        ensures
            r == self.op(),
    {
        self.opcode
    }

    /// The payload bytes.
    pub fn data(&self) -> (r: &Vec<u8>)
        ensures
            r@ == self.payload(),
    {
        &self.data
    }

    /// The packet as wire bytes: magic, opcode code, payload length,
    /// payload.
    pub fn encode(&self) -> (r: Vec<u8>)
        requires
            self.wf(),
        ensures
            r@ == spec_encode(self.op(), self.payload()),
    {
        let mut buffer: Vec<u8> = Vec::with_capacity(HEADER_SIZE + self.data.len());

        buffer.push((PROTOCOL_ID >> 56) as u8);
        buffer.push((PROTOCOL_ID >> 48) as u8);
        buffer.push((PROTOCOL_ID >> 40) as u8);
        buffer.push((PROTOCOL_ID >> 32) as u8);
        buffer.push((PROTOCOL_ID >> 24) as u8);
        buffer.push((PROTOCOL_ID >> 16) as u8);
        buffer.push((PROTOCOL_ID >> 8) as u8);
        buffer.push(PROTOCOL_ID as u8);

        let code: u16 = match self.opcode {
            Opcode::Sync => 1,
            Opcode::NewDirection => 2,
            Opcode::NewTarget => 3,
        };
        buffer.push((code >> 8) as u8);
        buffer.push(code as u8);

        let size = self.data.len() as u16;
        buffer.push((size >> 8) as u8);
        buffer.push(size as u8);

        buffer.extend_from_slice(self.data.as_slice());
        proof {
            assert(buffer@ =~= spec_encode(self.op(), self.payload()));
        }
        buffer
    }

    /// Parse wire bytes back into a packet, rejecting exactly what
    /// `spec_decode` rejects.
    pub fn decode(buffer: &[u8]) -> (r: Option<Packet>)
        ensures
            match spec_decode(buffer@) {
                Some((op, data)) => r matches Some(p) && p.op() == op && p.payload() == data
                    && p.wf(),
                None => r is None,
            },
    {
        if buffer.len() < HEADER_SIZE {
            return None;
        }

        let protocol_id: u64 = ((buffer[0] as u64) << 56) | ((buffer[1] as u64) << 48)
            | ((buffer[2] as u64) << 40) | ((buffer[3] as u64) << 32) | ((buffer[4] as u64) << 24)
            | ((buffer[5] as u64) << 16) | ((buffer[6] as u64) << 8) | (buffer[7] as u64);
        proof {
            assert(buffer@.subrange(0, 8)[0] == buffer@[0]);
            assert(buffer@.subrange(0, 8)[1] == buffer@[1]);
            assert(buffer@.subrange(0, 8)[2] == buffer@[2]);
            assert(buffer@.subrange(0, 8)[3] == buffer@[3]);
            assert(buffer@.subrange(0, 8)[4] == buffer@[4]);
            assert(buffer@.subrange(0, 8)[5] == buffer@[5]);
            assert(buffer@.subrange(0, 8)[6] == buffer@[6]);
            assert(buffer@.subrange(0, 8)[7] == buffer@[7]);
        }

        if protocol_id != PROTOCOL_ID {
            return None;
        }

        let code: u16 = ((buffer[8] as u16) << 8) | (buffer[9] as u16);
        proof {
            assert(buffer@.subrange(8, 10)[0] == buffer@[8]);
            assert(buffer@.subrange(8, 10)[1] == buffer@[9]);
        }

        let opcode = match code {
            1u16 => Opcode::Sync,
            2u16 => Opcode::NewDirection,
            3u16 => Opcode::NewTarget,
            _ => {
                return None;
            },
        };

        let size: u16 = ((buffer[10] as u16) << 8) | (buffer[11] as u16);
        proof {
            assert(buffer@.subrange(10, 12)[0] == buffer@[10]);
            assert(buffer@.subrange(10, 12)[1] == buffer@[11]);
        }

        if size as usize != buffer.len() - HEADER_SIZE {
            return None;
        }

        let mut packet = Packet::new(opcode, size as usize);
        let rest = &buffer[HEADER_SIZE..buffer.len()];
        packet.data.extend_from_slice(rest);
        proof {
            assert(packet.payload() =~= buffer@.subrange(
                HEADER_SIZE as int,
                buffer@.len() as int,
            ));
        }
        Some(packet)
    }
}

} // verus!
