//! A canonical byte encoding for block headers, with a proved round trip:
//! decoding an encoded header yields the header back, field for field.

use vstd::prelude::*;

use crate::block::BlockHeader;
use crate::block::BlockHeaderV;
use crate::primitives::Address;
use crate::primitives::Bytes;
use crate::primitives::Gas;
use crate::primitives::Hash256;

verus! {

/// Big-endian bytes of a 64-bit number.
pub open spec fn enc_u64(n: u64) -> Seq<u8> {
    Seq::new(
        8,
        |i: int|
            if i == 0 {
                (n >> 56) as u8
            } else if i == 1 {
                (n >> 48) as u8
            } else if i == 2 {
                (n >> 40) as u8
            } else if i == 3 {
                (n >> 32) as u8
            } else if i == 4 {
                (n >> 24) as u8
            } else if i == 5 {
                (n >> 16) as u8
            } else if i == 6 {
                (n >> 8) as u8
            } else {
                n as u8
            },
    )
}

/// A length-prefixed byte string.
pub open spec fn enc_bytes(d: Seq<u8>) -> Seq<u8> {
    enc_u64(d.len() as u64) + d
}

/// The header, field after field: the fixed-width numbers and digests
/// first, the length-prefixed bloom last.
pub open spec fn enc_header(h: BlockHeaderV) -> Seq<u8> {
    enc_u64(h.number) + h.hash@ + h.parent_hash@ + h.transactions_root@ + h.receipts_root@
        + h.state_root@ + enc_u64(h.gas_used.value) + enc_u64(h.timestamp) + h.miner@ + enc_bytes(
        h.logs_bloom,
    )
}

/// Appends the big-endian bytes of `n`.
fn write_u64(out: &mut Vec<u8>, n: u64)
    ensures
        final(out)@ == old(out)@ + enc_u64(n),
{
    out.push((n >> 56) as u8);
    out.push((n >> 48) as u8);
    out.push((n >> 40) as u8);
    out.push((n >> 32) as u8);
    out.push((n >> 24) as u8);
    out.push((n >> 16) as u8);
    out.push((n >> 8) as u8);
    out.push(n as u8);
    proof {
        assert(final(out)@ =~= old(out)@ + enc_u64(n));
    }
}

/// Reads a big-endian 64-bit number.
fn read_u64(buf: &Vec<u8>, pos: usize) -> (r: Option<(u64, usize)>)
    ensures
        forall|n: u64, rest: Seq<u8>|
            pos <= buf@.len() && buf@.skip(pos as int) == enc_u64(n) + rest ==> r == Some(
                (n, (pos + 8) as usize),
            ),
{
    if buf.len() < 8 || pos > buf.len() - 8 {
        proof {
            assert forall|n: u64, rest: Seq<u8>|
                pos <= buf@.len() && buf@.skip(pos as int) == enc_u64(n)
                    + rest implies false by {
                assert(buf@.skip(pos as int).len() == buf@.len() - pos);
                assert((enc_u64(n) + rest).len() >= 8);
            }
        }
        return None;
    }
    let b0 = buf[pos];
    let b1 = buf[pos + 1];
    let b2 = buf[pos + 2];
    let b3 = buf[pos + 3];
    let b4 = buf[pos + 4];
    let b5 = buf[pos + 5];
    let b6 = buf[pos + 6];
    let b7 = buf[pos + 7];
    let n = ((b0 as u64) << 56) | ((b1 as u64) << 48) | ((b2 as u64) << 40) | ((b3 as u64) << 32)
        | ((b4 as u64) << 24) | ((b5 as u64) << 16) | ((b6 as u64) << 8) | (b7 as u64);
    let r = Some((n, pos + 8));
    proof {
        assert forall|m: u64, rest: Seq<u8>|
            pos <= buf@.len() && buf@.skip(pos as int) == enc_u64(m) + rest implies r == Some(
            (m, (pos + 8) as usize),
        ) by {
            assert(buf@.skip(pos as int)[0] == buf@[pos as int]);
            assert(buf@.skip(pos as int)[1] == buf@[pos + 1]);
            assert(buf@.skip(pos as int)[2] == buf@[pos + 2]);
            assert(buf@.skip(pos as int)[3] == buf@[pos + 3]);
            assert(buf@.skip(pos as int)[4] == buf@[pos + 4]);
            assert(buf@.skip(pos as int)[5] == buf@[pos + 5]);
            assert(buf@.skip(pos as int)[6] == buf@[pos + 6]);
            assert(buf@.skip(pos as int)[7] == buf@[pos + 7]);
            assert(b0 == (m >> 56) as u8);
            assert(b1 == (m >> 48) as u8);
            assert(b2 == (m >> 40) as u8);
            assert(b3 == (m >> 32) as u8);
            assert(b4 == (m >> 24) as u8);
            assert(b5 == (m >> 16) as u8);
            assert(b6 == (m >> 8) as u8);
            assert(b7 == m as u8);
            assert(((((m >> 56) as u8) as u64) << 56) | ((((m >> 48) as u8) as u64) << 48) | ((((m
                >> 40) as u8) as u64) << 40) | ((((m >> 32) as u8) as u64) << 32) | ((((m
                >> 24) as u8) as u64) << 24) | ((((m >> 16) as u8) as u64) << 16) | ((((m
                >> 8) as u8) as u64) << 8) | ((m as u8) as u64) == m) by (bit_vector);
        }
    }
    r
}

/// Appends a 32-byte digest.
fn write_bytes32(out: &mut Vec<u8>, bytes: &[u8; 32])
    ensures
        final(out)@ == old(out)@ + bytes@,
{
    out.extend_from_slice(bytes.as_slice());
    proof {
        assert(final(out)@ =~= old(out)@ + bytes@);
    }
}

/// Reads 32 bytes.
fn read_bytes32(buf: &Vec<u8>, pos: usize) -> (r: Option<([u8; 32], usize)>)
    ensures
        forall|v: Seq<u8>, rest: Seq<u8>|
            pos <= buf@.len() && v.len() == 32 && buf@.skip(pos as int) == v + rest ==> (r matches
            Some(x) && x.0@ == v && x.1 == pos + 32),
{
    if buf.len() < 32 || pos > buf.len() - 32 {
        proof {
            assert forall|v: Seq<u8>, rest: Seq<u8>|
                pos <= buf@.len() && v.len() == 32 && buf@.skip(pos as int) == v
                    + rest implies false by {
                assert(buf@.skip(pos as int).len() == buf@.len() - pos);
                assert((v + rest).len() >= 32);
            }
        }
        return None;
    }
    let mut bytes = [0u8; 32];
    let mut i: usize = 0;
    while i < 32
        invariant
            i <= 32,
            pos + 32 <= buf.len(),
            buf.len() == buf@.len(),
            forall|j: int| 0 <= j < i ==> bytes@[j] == buf@[pos + j],
        decreases 32 - i,
    {
        bytes[i] = buf[pos + i];
        i = i + 1;
    }
    let r = Some((bytes, pos + 32));
    proof {
        assert forall|v: Seq<u8>, rest: Seq<u8>|
            pos <= buf@.len() && v.len() == 32 && buf@.skip(pos as int) == v + rest implies (
        r matches Some(x) && x.0@ == v && x.1 == pos + 32) by {
            assert forall|j: int| 0 <= j < 32 implies bytes@[j] == v[j] by {
                assert(buf@.skip(pos as int)[j] == buf@[pos + j]);
                assert((v + rest)[j] == v[j]);
            }
            assert(bytes@ =~= v);
        }
    }
    r
}

/// Appends a 20-byte address.
fn write_bytes20(out: &mut Vec<u8>, bytes: &[u8; 20])
    ensures
        final(out)@ == old(out)@ + bytes@,
{
    out.extend_from_slice(bytes.as_slice());
    proof {
        assert(final(out)@ =~= old(out)@ + bytes@);
    }
}

/// Reads 20 bytes.
fn read_bytes20(buf: &Vec<u8>, pos: usize) -> (r: Option<([u8; 20], usize)>)
    ensures
        forall|v: Seq<u8>, rest: Seq<u8>|
            pos <= buf@.len() && v.len() == 20 && buf@.skip(pos as int) == v + rest ==> (r matches
            Some(x) && x.0@ == v && x.1 == pos + 20),
{
    if buf.len() < 20 || pos > buf.len() - 20 {
        proof {
            assert forall|v: Seq<u8>, rest: Seq<u8>|
                pos <= buf@.len() && v.len() == 20 && buf@.skip(pos as int) == v
                    + rest implies false by {
                assert(buf@.skip(pos as int).len() == buf@.len() - pos);
                assert((v + rest).len() >= 20);
            }
        }
        return None;
    }
    let mut bytes = [0u8; 20];
    let mut i: usize = 0;
    while i < 20
        invariant
            i <= 20,
            pos + 20 <= buf.len(),
            buf.len() == buf@.len(),
            forall|j: int| 0 <= j < i ==> bytes@[j] == buf@[pos + j],
        decreases 20 - i,
    {
        bytes[i] = buf[pos + i];
        i = i + 1;
    }
    let r = Some((bytes, pos + 20));
    proof {
        assert forall|v: Seq<u8>, rest: Seq<u8>|
            pos <= buf@.len() && v.len() == 20 && buf@.skip(pos as int) == v + rest implies (
        r matches Some(x) && x.0@ == v && x.1 == pos + 20) by {
            assert forall|j: int| 0 <= j < 20 implies bytes@[j] == v[j] by {
                assert(buf@.skip(pos as int)[j] == buf@[pos + j]);
                assert((v + rest)[j] == v[j]);
            }
            assert(bytes@ =~= v);
        }
    }
    r
}

/// Appends a length-prefixed byte string.
fn write_bytes(out: &mut Vec<u8>, data: &Vec<u8>)
    ensures
        final(out)@ == old(out)@ + enc_bytes(data@),
{
    write_u64(out, data.len() as u64);
    let mut i: usize = 0;
    let n = data.len();
    while i < n
        invariant
            i <= n,
            n == data@.len(),
            out@ == old(out)@ + enc_u64(data@.len() as u64) + data@.take(i as int),
        decreases n - i,
    {
        out.push(data[i]);
        proof {
            assert(out@ =~= old(out)@ + enc_u64(data@.len() as u64) + data@.take(i + 1));
        }
        i = i + 1;
    }
    proof {
        assert(data@.take(n as int) =~= data@);
        assert(out@ =~= old(out)@ + enc_bytes(data@));
    }
}

/// Reads a length-prefixed byte string.
fn read_bytes(buf: &Vec<u8>, pos: usize) -> (r: Option<(Vec<u8>, usize)>)
    ensures
        forall|d: Seq<u8>, rest: Seq<u8>|
            pos <= buf@.len() && d.len() <= u64::MAX && buf@.skip(pos as int) == enc_bytes(d)
                + rest ==> (r matches Some(x) && x.0@ == d && x.1 == pos + 8 + d.len()),
{
    let (len, p1) = match read_u64(buf, pos) {
        Some(x) => x,
        None => {
            proof {
                assert forall|d: Seq<u8>, rest: Seq<u8>|
                    pos <= buf@.len() && d.len() <= u64::MAX && buf@.skip(pos as int) == enc_bytes(
                        d,
                    ) + rest implies false by {
                    assert(buf@.skip(pos as int) == enc_u64(d.len() as u64) + (d + rest)) by {
                        assert(enc_bytes(d) + rest =~= enc_u64(d.len() as u64) + (d + rest));
                    }
                }
            }
            return None;
        },
    };
    if len > (usize::MAX as u64) || buf.len() < p1 || (len as usize) > buf.len() - p1 {
        proof {
            assert forall|d: Seq<u8>, rest: Seq<u8>|
                pos <= buf@.len() && d.len() <= u64::MAX && buf@.skip(pos as int) == enc_bytes(d)
                    + rest implies false by {
                assert(buf@.skip(pos as int) == enc_u64(d.len() as u64) + (d + rest)) by {
                    assert(enc_bytes(d) + rest =~= enc_u64(d.len() as u64) + (d + rest));
                }
                assert(len == d.len() as u64);
                assert(buf.len() == buf@.len());
                assert(buf@.skip(pos as int).len() == buf@.len() - pos);
            }
        }
        return None;
    }
    let count = len as usize;
    let mut data: Vec<u8> = Vec::new();
    let mut i: usize = 0;
    while i < count
        invariant
            i <= count,
            p1 + count <= buf.len(),
            buf.len() == buf@.len(),
            data@.len() == i,
            forall|j: int| 0 <= j < i ==> data@[j] == buf@[p1 + j],
        decreases count - i,
    {
        data.push(buf[p1 + i]);
        i = i + 1;
    }
    let r = Some((data, p1 + count));
    proof {
        assert forall|d: Seq<u8>, rest: Seq<u8>|
            pos <= buf@.len() && d.len() <= u64::MAX && buf@.skip(pos as int) == enc_bytes(d)
                + rest implies (r matches Some(x) && x.0@ == d && x.1 == pos + 8 + d.len()) by {
            assert(buf@.skip(pos as int) == enc_u64(d.len() as u64) + (d + rest)) by {
                assert(enc_bytes(d) + rest =~= enc_u64(d.len() as u64) + (d + rest));
            }
            assert(len == d.len() as u64);
            assert forall|j: int| 0 <= j < d.len() implies buf@[p1 + j] == d[j] by {
                assert(buf@.skip(pos as int)[8 + j] == buf@[pos + 8 + j]);
                assert((enc_u64(d.len() as u64) + (d + rest))[8 + j] == (d + rest)[j]);
                assert((d + rest)[j] == d[j]);
            }
            let data_v = (match r {
                Some(x) => x.0@,
                None => Seq::empty(),
            });
            assert(data_v =~= d);
        }
    }
    r
}

/// Encodes a block header.
pub fn serialize_header(header: &BlockHeader) -> (r: Vec<u8>)
    ensures
        r@ == enc_header(header@),
{
    let mut out: Vec<u8> = Vec::new();
    write_u64(&mut out, header.number);
    write_bytes32(&mut out, &header.hash.bytes);
    write_bytes32(&mut out, &header.parent_hash.bytes);
    write_bytes32(&mut out, &header.transactions_root.bytes);
    write_bytes32(&mut out, &header.receipts_root.bytes);
    write_bytes32(&mut out, &header.state_root.bytes);
    write_u64(&mut out, header.gas_used.value);
    write_u64(&mut out, header.timestamp);
    write_bytes20(&mut out, &header.miner.bytes);
    write_bytes(&mut out, &header.logs_bloom.data);
    proof {
        assert(out@ =~= enc_header(header@));
    }
    out
}

/// Decodes a block header. Feeding it the encoding of any header yields
/// exactly that header back: the round trip is the identity.
pub fn deserialize_header(buf: &Vec<u8>) -> (r: Option<BlockHeader>)
    ensures
        forall|hv: BlockHeaderV| buf@ == enc_header(hv) ==> (r matches Some(h) && h@ == hv),
{
    proof {
        assert forall|hv: BlockHeaderV| buf@ == enc_header(hv) implies {
            &&& buf@.len() == 212 + hv.logs_bloom.len()
            &&& buf@.skip(0) == enc_u64(hv.number) + buf@.skip(8)
            &&& buf@.skip(8) == hv.hash@ + buf@.skip(40)
            &&& buf@.skip(40) == hv.parent_hash@ + buf@.skip(72)
            &&& buf@.skip(72) == hv.transactions_root@ + buf@.skip(104)
            &&& buf@.skip(104) == hv.receipts_root@ + buf@.skip(136)
            &&& buf@.skip(136) == hv.state_root@ + buf@.skip(168)
            &&& buf@.skip(168) == enc_u64(hv.gas_used.value) + buf@.skip(176)
            &&& buf@.skip(176) == enc_u64(hv.timestamp) + buf@.skip(184)
            &&& buf@.skip(184) == hv.miner@ + buf@.skip(204)
            &&& buf@.skip(204) == enc_bytes(hv.logs_bloom) + Seq::<u8>::empty()
            &&& hv.logs_bloom.len() <= u64::MAX
        } by {
            assert(buf.len() == buf@.len());
            assert(buf@.len() == 212 + hv.logs_bloom.len());
            assert(buf@.skip(0) =~= enc_u64(hv.number) + buf@.skip(8));
            assert(buf@.skip(8) =~= hv.hash@ + buf@.skip(40));
            assert(buf@.skip(40) =~= hv.parent_hash@ + buf@.skip(72));
            assert(buf@.skip(72) =~= hv.transactions_root@ + buf@.skip(104));
            assert(buf@.skip(104) =~= hv.receipts_root@ + buf@.skip(136));
            assert(buf@.skip(136) =~= hv.state_root@ + buf@.skip(168));
            assert(buf@.skip(168) =~= enc_u64(hv.gas_used.value) + buf@.skip(176));
            assert(buf@.skip(176) =~= enc_u64(hv.timestamp) + buf@.skip(184));
            assert(buf@.skip(184) =~= hv.miner@ + buf@.skip(204));
            assert(buf@.skip(204) =~= enc_bytes(hv.logs_bloom) + Seq::<u8>::empty());
        }
    }
    let (number, p1) = match read_u64(buf, 0) {
        Some(x) => x,
        None => {
            return None;
        },
    };
    let (hash, p2) = match read_field32(buf, p1) {
        Some(x) => x,
        None => {
            return None;
        },
    };
    let (parent_hash, p3) = match read_field32(buf, p2) {
        Some(x) => x,
        None => {
            return None;
        },
    };
    let (transactions_root, p4) = match read_field32(buf, p3) {
        Some(x) => x,
        None => {
            return None;
        },
    };
    let (receipts_root, p5) = match read_field32(buf, p4) {
        Some(x) => x,
        None => {
            return None;
        },
    };
    let (state_root, p6) = match read_field32(buf, p5) {
        Some(x) => x,
        None => {
            return None;
        },
    };
    let (gas, p7) = match read_u64(buf, p6) {
        Some(x) => x,
        None => {
            return None;
        },
    };
    let (timestamp, p8) = match read_u64(buf, p7) {
        Some(x) => x,
        None => {
            return None;
        },
    };
    let (miner_bytes, p9) = match read_bytes20(buf, p8) {
        Some(x) => x,
        None => {
            return None;
        },
    };
    let (bloom, p10) = match read_bytes(buf, p9) {
        Some(x) => x,
        None => {
            return None;
        },
    };
    if p10 != buf.len() {
        return None;
    }
    let header = BlockHeader {
        number,
        hash,
        parent_hash,
        transactions_root,
        receipts_root,
        state_root,
        logs_bloom: Bytes::new(bloom),
        gas_used: Gas::new(gas),
        timestamp,
        miner: Address::new(miner_bytes),
    };
    let r = Some(header);
    proof {
        assert forall|hv: BlockHeaderV| buf@ == enc_header(hv) implies (r matches Some(h) && h@
            == hv) by {
            let h = (match r {
                Some(h) => h,
                None => arbitrary(),
            });
            assert(h.hash.bytes =~= hv.hash.bytes);
            assert(h.hash =~= hv.hash);
            assert(h.parent_hash.bytes =~= hv.parent_hash.bytes);
            assert(h.parent_hash =~= hv.parent_hash);
            assert(h.transactions_root.bytes =~= hv.transactions_root.bytes);
            assert(h.transactions_root =~= hv.transactions_root);
            assert(h.receipts_root.bytes =~= hv.receipts_root.bytes);
            assert(h.receipts_root =~= hv.receipts_root);
            assert(h.state_root.bytes =~= hv.state_root.bytes);
            assert(h.state_root =~= hv.state_root);
            assert(h.miner.bytes =~= hv.miner.bytes);
            assert(h.miner =~= hv.miner);
            assert(h@ =~= hv);
        }
    }
    r
}

/// Reads one 32-byte field.
fn read_field32(buf: &Vec<u8>, pos: usize) -> (r: Option<(Hash256, usize)>)
    ensures
        forall|v: Seq<u8>, rest: Seq<u8>|
            pos <= buf@.len() && v.len() == 32 && buf@.skip(pos as int) == v + rest ==> (r matches
            Some(x) && x.0@ == v && x.1 == pos + 32),
{
    match read_bytes32(buf, pos) {
        Some((bytes, p)) => Some((Hash256::new(bytes), p)),
        None => None,
    }
}

} // verus!
