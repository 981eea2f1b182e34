//! Splitting data into fountain-coded packets (RaptorQ) that fit in QR
//! codes, and merging them back.
use vstd::prelude::*;

use raptorq::{Decoder, Encoder, EncodingPacket, ObjectTransmissionInformation};

use crate::account::opt_bytes;
use crate::data::{PacketT, PacketsT};

verus! {

/// The largest packet payload: one symbol of 256 bytes.
pub const QR_DATA_SIZE: u16 = 256;

/// The number of 256-byte symbols that carry `len` bytes.
pub open spec fn qr_symbols(len: int) -> int {
    (len + 255) / 256
}

/// The number of source blocks for `len` bytes: a block holds at most
/// 56403 symbols.
pub open spec fn qr_blocks(len: int) -> int {
    (qr_symbols(len) + 56402) / 56403
}

/// The most symbols of one source block for `len` bytes.
pub open spec fn qr_block_symbols(len: int) -> int {
    (qr_symbols(len) + qr_blocks(len) - 1) / qr_blocks(len)
}

/// Whether `data` can be split: it is not empty, it fits in 255 source
/// blocks, and the repair packets of a block keep their symbol ids under
/// 2^24.
pub open spec fn split_ok(data: Seq<u8>, threshold: u32) -> bool {
    &&& 0 < data.len() <= 255 * 56403 * 256
    &&& threshold + qr_block_symbols(data.len() as int) < 16777216
}

/// Whether `packet` is a packet of the transfer of `len` bytes: a 4-byte
/// header, whose first byte is the number of one of its source blocks, and
/// one symbol.
pub open spec fn packet_fits(len: u32, packet: Seq<u8>) -> bool {
    packet.len() == 260 && (packet[0] as int) < qr_blocks(len as int)
}

/// The serialized packets that RaptorQ encodes `data` into, with
/// `threshold` repair packets per source block.
pub uninterp spec fn raptorq_packets(data: Seq<u8>, threshold: u32) -> Seq<Seq<u8>>;

/// What a RaptorQ decoder for a transfer of `len` bytes gives back after
/// it was fed `packets` in order: the data, once every source block is
/// recovered.
pub uninterp spec fn raptorq_decoded(len: u32, packets: Seq<Seq<u8>>) -> Option<Seq<u8>>;

/// The packets a decoder was fed, in order.
pub uninterp spec fn decoder_packets(d: Decoder) -> Seq<Seq<u8>>;

/// The transfer length a decoder was made for.
pub uninterp spec fn decoder_length(d: Decoder) -> u32;

/// The views of a list of byte vectors.
pub open spec fn bytes_views(v: Seq<Vec<u8>>) -> Seq<Seq<u8>> {
    v.map_values(|p: Vec<u8>| p@)
}

#[verifier::external_type_specification]
#[verifier::external_body]
pub struct ExDecoder(Decoder);

/// Encodes `data` into serialized packets.
///
/// Calls `Encoder::new` with `ObjectTransmissionInformation::with_defaults`
/// for `data.len()` bytes and packets of 256 bytes, then
/// `get_encoded_packets(threshold)` and `EncodingPacket::serialize` on each.
/// The packets hold every source symbol of every block (the code is
/// systematic), so a decoder fed them in order recovers `data`; each is a
/// 4-byte header (its block's number first) and one 256-byte symbol. Empty
/// data makes the encoder divide by zero, more than 255 blocks overflow the
/// block number, and a symbol id of 2^24 or more fails an assertion: the
/// `requires` leaves these out.
#[verifier::external_body]
fn encode_packets(data: &[u8], threshold: u32) -> (r: Vec<Vec<u8>>)
    requires
        split_ok(data@, threshold),
    ensures
        bytes_views(r@) == raptorq_packets(data@, threshold),
        r@.len() > 0,
        raptorq_decoded(data@.len() as u32, bytes_views(r@)) == Some(data@),
        forall|i: int| 0 <= i < r@.len() ==> packet_fits(data@.len() as u32, #[trigger] r@[i]@),
{
    let config = ObjectTransmissionInformation::with_defaults(data.len() as u64, QR_DATA_SIZE);
    Encoder::new(data, config).get_encoded_packets(threshold).iter().map(|p| p.serialize()).collect()
}

/// A decoder for a transfer of `len` bytes.
///
/// Calls `Decoder::new` with `ObjectTransmissionInformation::with_defaults`
/// for `len` bytes and packets of 256 bytes; a length of 0 makes it divide
/// by zero.
#[verifier::external_body]
fn new_decoder(len: u32) -> (d: Decoder)
    requires
        len > 0,
    ensures
        decoder_packets(d) == Seq::<Seq<u8>>::empty(),
        decoder_length(d) == len,
{
    Decoder::new(ObjectTransmissionInformation::with_defaults(len as u64, QR_DATA_SIZE))
}

/// Feeds a serialized packet to the decoder.
///
/// Calls `EncodingPacket::deserialize`, then `Decoder::decode`. The
/// decoder indexes its blocks by the packet's first byte and reads the
/// first four bytes as the header; symbols of another size than the
/// transfer's break its arithmetic: `requires` asks for a packet of the
/// transfer.
#[verifier::external_body]
fn decoder_add(d: &mut Decoder, packet: &[u8])
    requires
        packet_fits(decoder_length(*old(d)), packet@),
    ensures
        decoder_packets(*final(d)) == decoder_packets(*old(d)).push(packet@),
        decoder_length(*final(d)) == decoder_length(*old(d)),
{
    d.decode(EncodingPacket::deserialize(packet));
}

/// The data the decoder has recovered.
///
/// Calls `Decoder::get_result`, which gives the blocks joined and cut to
/// the transfer length once every block is decoded.
#[verifier::external_body]
fn decoder_result(d: &Decoder) -> (r: Option<Vec<u8>>)
    ensures
        opt_bytes(r) == raptorq_decoded(decoder_length(*d), decoder_packets(*d)),
        r matches Some(v) ==> v@.len() == decoder_length(*d),
{
    d.get_result()
}

/// Splits `data` into packets for QR codes: the RaptorQ packets of the
/// data with `threshold` repair packets per block, each with the length of
/// the data. Merging them gives the data back.
pub fn split(data: &[u8], threshold: u32) -> (r: Vec<PacketT>)
    requires
        split_ok(data@, threshold),
    ensures
        r@.len() == raptorq_packets(data@, threshold).len(),
        forall|i: int| 0 <= i < r@.len() ==> {
            &&& opt_bytes((#[trigger] r@[i]).data) == Some(raptorq_packets(data@, threshold)[i])
            &&& r@[i].len == data@.len()
        },
        merged(r@) == data@,
{
    let packets = encode_packets(data, threshold);
    let len = data.len() as u32;
    let mut r: Vec<PacketT> = Vec::new();
    let mut i: usize = 0;
    while i < packets.len()
        invariant
            i <= packets@.len(),
            len == data@.len(),
            r@.len() == i,
            forall|k: int| 0 <= k < i ==> opt_bytes((#[trigger] r@[k]).data) == Some(packets@[k]@) && r@[k].len == len,
        decreases packets@.len() - i,
    {
        r.push(PacketT { data: Some(packets[i].clone()), len });
        i += 1;
    }
    proof {
        assert(bytes_views(packets@).len() == packets@.len());
        assert(packets_data(r@) =~= bytes_views(packets@));
        assert forall|k: int| 0 <= k < r@.len() implies packet_fits(len, (#[trigger] packets_data(r@)[k])) by {
            assert(packets_data(r@)[k] == packets@[k]@);
        }
    }
    r
}

/// The payloads of a list of packets (empty where a packet has none).
pub open spec fn packets_data(p: Seq<PacketT>) -> Seq<Seq<u8>> {
    p.map_values(|q: PacketT| match q.data { Some(d) => d@, None => Seq::empty() })
}

/// What merging the packets `p` gives: nothing for no packets, else the
/// data decoded from all of them for the length the first one carries (or
/// nothing while blocks are missing).
pub open spec fn merged(p: Seq<PacketT>) -> Seq<u8> {
    if p.len() == 0 {
        Seq::empty()
    } else {
        match raptorq_decoded(p[0].len, packets_data(p)) {
            Some(d) => d,
            None => Seq::empty(),
        }
    }
}

/// Whether the packets can be merged: the list is there, and every packet
/// has a payload that is a packet of the transfer the first one names,
/// whose length is not zero.
pub open spec fn merge_ok(parts: PacketsT) -> bool {
    parts.packets matches Some(p) && (p@.len() > 0 ==> {
        &&& p@[0].len > 0
        &&& forall|i: int| 0 <= i < p@.len() ==> (#[trigger] p@[i]).data is Some
        &&& forall|i: int| 0 <= i < p@.len() ==> packet_fits(p@[0].len, #[trigger] packets_data(p@)[i])
    })
}

/// Whether the packets can be merged (see `merge_ok`).
pub fn can_merge(parts: &PacketsT) -> (r: bool)
    ensures
        r == merge_ok(*parts),
{
    match &parts.packets {
        None => false,
        Some(p) => {
            if p.len() == 0 {
                return true;
            }
            let len = p[0].len;
            if len == 0 {
                return false;
            }
            let mut i: usize = 0;
            while i < p.len()
                invariant
                    i <= p@.len(),
                    parts.packets->0@ == p@,
                    parts.packets is Some,
                    len == p@[0].len,
                    forall|k: int| 0 <= k < i ==> (#[trigger] p@[k]).data is Some,
                    forall|k: int| 0 <= k < i ==> packet_fits(len, #[trigger] packets_data(p@)[k]),
                decreases p@.len() - i,
            {
                match &p[i].data {
                    None => {
                        assert(p@[i as int].data is None);
                        assert(!merge_ok(*parts));
                        return false;
                    },
                    Some(d) => {
                        assert(packets_data(p@)[i as int] == d@);
                        if d.len() != 260 || d[0] as u64 >= ((len as u64 + 255) / 256 + 56402) / 56403 {
                            proof {
                                assert(qr_blocks(len as int) == ((len as int + 255) / 256 + 56402) / 56403);
                                assert(!packet_fits(len, packets_data(p@)[i as int]));
                                assert(!merge_ok(*parts));
                            }
                            return false;
                        }
                    },
                }
                i += 1;
            }
            true
        },
    }
}

/// Merges packets back into the data: nothing for no packets, else what a
/// decoder for the length of the first packet recovers from all of them
/// in order (nothing while blocks are missing).
pub fn merge(parts: &PacketsT) -> (r: Vec<u8>)
    requires
        merge_ok(*parts),
    ensures
        r@ == merged(parts.packets->0@),
{
    let packets = parts.packets.as_ref().unwrap();
    if packets.len() == 0 {
        return Vec::new();
    }
    let len = packets[0].len;
    let mut decoder = new_decoder(len);
    let mut i: usize = 0;
    while i < packets.len()
        invariant
            i <= packets@.len(),
            len == packets@[0].len,
            merge_ok(*parts),
            packets@ == parts.packets->0@,
            decoder_length(decoder) == len,
            decoder_packets(decoder) == packets_data(packets@).take(i as int),
        decreases packets@.len() - i,
    {
        let d = packets[i].data.as_ref().unwrap();
        proof {
            assert(packets_data(packets@)[i as int] == d@);
            assert(packets_data(packets@).take(i + 1) =~= packets_data(packets@).take(i as int).push(d@));
        }
        decoder_add(&mut decoder, d.as_slice());
        i += 1;
    }
    proof {
        assert(packets_data(packets@).take(packets@.len() as int) =~= packets_data(packets@));
    }
    match decoder_result(&decoder) {
        Some(v) => v,
        None => Vec::new(),
    }
}

} // verus!
