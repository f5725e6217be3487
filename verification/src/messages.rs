//! Messages from the game loop to a player's network task.
//!
//! [`ServerOutput`] selects how the payload bytes reach the wire: encoded
//! per packet, shared across many players, static, or reference-counted.

use std::sync::Arc;

use vstd::prelude::*;

verus! {

/// A packet body that can be written to the wire.
pub trait PacketPayload {
    /// The bytes this payload encodes to.
    spec fn payload_bytes(&self) -> Seq<u8>;

    /// Appends the encoded payload to `buf`.
    fn encode(&self, buf: &mut Vec<u8>)
        ensures
            final(buf)@ == old(buf)@ + self.payload_bytes(),
    ;

    /// Number of bytes [`PacketPayload::encode`] appends.
    fn encoded_size(&self) -> (n: usize)
        ensures
            n == self.payload_bytes().len(),
    ;
}

/// Appends `bytes` to `buf`.
pub fn extend_bytes(buf: &mut Vec<u8>, bytes: &[u8])
    ensures
        final(buf)@ == old(buf)@ + bytes@,
{
    let mut i: usize = 0;
    while i < bytes.len()
        invariant
            i <= bytes@.len(),
            buf@ == old(buf)@ + bytes@.subrange(0, i as int),
        decreases bytes@.len() - i,
    {
        buf.push(bytes[i]);
        i = i + 1;
        assert(bytes@.subrange(0, i as int) =~= bytes@.subrange(0, i - 1).push(bytes@[i - 1]));
    }
    assert(bytes@.subrange(0, bytes@.len() as int) =~= bytes@);
}

/// Raw owned bytes written without framing or encoding.
pub struct RawPayload(pub Vec<u8>);

impl PacketPayload for RawPayload {
    open spec fn payload_bytes(&self) -> Seq<u8> {
        self.0@
    }

    fn encode(&self, buf: &mut Vec<u8>) {
        extend_bytes(buf, self.0.as_slice());
    }

    fn encoded_size(&self) -> (n: usize) {
        self.0.len()
    }
}

/// Borrowed bytes written without framing or encoding.
pub struct RawSlice<'a>(pub &'a [u8]);

impl<'a> PacketPayload for RawSlice<'a> {
    open spec fn payload_bytes(&self) -> Seq<u8> {
        self.0@
    }

    fn encode(&self, buf: &mut Vec<u8>) {
        extend_bytes(buf, self.0);
    }

    fn encoded_size(&self) -> (n: usize) {
        self.0.len()
    }
}

/// A protocol packet ready for the network task: its packet id and its
/// encoded body.
#[derive(Clone)]
pub struct EncodablePacket {
    /// Minecraft packet ID.
    pub id: i32,
    /// The encoded packet body.
    pub payload: Arc<Vec<u8>>,
}

impl EncodablePacket {
    /// Wraps a packet body under the given packet id.
    pub fn new<P: PacketPayload>(id: i32, packet: P) -> (r: EncodablePacket)
        ensures
            r.id == id,
            r.payload@ == packet.payload_bytes(),
    {
        let mut buf: Vec<u8> = Vec::new();
        packet.encode(&mut buf);
        EncodablePacket { id, payload: Arc::new(buf) }
    }

    /// The wire packet ID this carrier holds.
    pub fn id(&self) -> (r: i32)
        ensures
            r == self.id,
    {
        self.id
    }
}

/// A multi-packet broadcast shared across many consumers.
pub struct SharedBroadcast {
    /// The packets to send to each consumer, in order.
    pub packets: Vec<EncodablePacket>,
}

/// The (packet id, body bytes) pairs of a list of packets.
pub open spec fn encoded_pairs(packets: Seq<EncodablePacket>) -> Seq<(i32, Seq<u8>)> {
    packets.map_values(|p: EncodablePacket| (p.id, p.payload@))
}

/// Copies a byte vector.
fn copy_vec(v: &Vec<u8>) -> (r: Vec<u8>)
    ensures
        r@ == v@,
{
    let mut r: Vec<u8> = Vec::new();
    extend_bytes(&mut r, v.as_slice());
    r
}

impl SharedBroadcast {
    /// A shared broadcast of one or more packets.
    pub fn new(packets: Vec<EncodablePacket>) -> (r: SharedBroadcast)
        ensures
            r.packets@ == packets@,
    {
        SharedBroadcast { packets }
    }

    /// A shared broadcast of a single packet.
    pub fn single<P: PacketPayload>(id: i32, packet: P) -> (r: SharedBroadcast)
        ensures
            r.packets@.len() == 1,
            r.packets@[0].id == id,
            r.packets@[0].payload@ == packet.payload_bytes(),
    {
        let mut packets: Vec<EncodablePacket> = Vec::new();
        packets.push(EncodablePacket::new(id, packet));
        SharedBroadcast { packets }
    }

    /// The (packet id, body bytes) pairs every consumer writes, in order.
    pub fn get_or_encode(&self) -> (r: Vec<(i32, Vec<u8>)>)
        ensures
            r@.len() == self.packets@.len(),
            forall|i: int|
                0 <= i < r@.len() ==> (#[trigger] r@[i]).0 == self.packets@[i].id && r@[i].1@
                    == self.packets@[i].payload@,
    {
        let mut out: Vec<(i32, Vec<u8>)> = Vec::new();
        let mut i: usize = 0;
        while i < self.packets.len()
            invariant
                i <= self.packets@.len(),
                out@.len() == i,
                forall|j: int|
                    0 <= j < i ==> (#[trigger] out@[j]).0 == self.packets@[j].id && out@[j].1@
                        == self.packets@[j].payload@,
            decreases self.packets@.len() - i,
        {
            let p = &self.packets[i];
            let bytes: &Vec<u8> = &p.payload;
            out.push((p.id, copy_vec(bytes)));
            i = i + 1;
        }
        out
    }
}

/// Output from the game loop to a player's network task.
#[derive(Clone)]
pub enum ServerOutput {
    /// A single packet encoded for this player.
    Plain(EncodablePacket),
    /// Packets shared across every receiver of a broadcast.
    Cached(Arc<SharedBroadcast>),
    /// Pre-encoded bytes valid for the whole process lifetime.
    Static {
        /// Minecraft packet ID.
        id: i32,
        /// Encoded payload.
        bytes: &'static [u8],
    },
    /// Pre-encoded reference-counted bytes.
    RawBorrowed {
        /// Minecraft packet ID.
        id: i32,
        /// Reference-counted encoded payload.
        bytes: Arc<Vec<u8>>,
    },
}

impl ServerOutput {
    /// A [`ServerOutput::Plain`] carrying the given packet.
    pub fn plain<P: PacketPayload>(id: i32, packet: P) -> (r: ServerOutput)
        ensures
            r matches ServerOutput::Plain(p) && p.id == id && p.payload@ == packet.payload_bytes(),
    {
        ServerOutput::Plain(EncodablePacket::new(id, packet))
    }

    /// A [`ServerOutput::RawBorrowed`] owning the given bytes.
    pub fn raw_owned(id: i32, data: Vec<u8>) -> (r: ServerOutput)
        ensures
            r matches ServerOutput::RawBorrowed { id: i, bytes } && i == id && bytes@ == data@,
    {
        ServerOutput::RawBorrowed { id, bytes: Arc::new(data) }
    }
}

} // verus!
