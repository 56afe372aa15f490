use vstd::prelude::*;
use vstd::string::{StrSliceExecFns, StringExecFns, StringSliceAdditionalSpecFns};
use vstd::utf8::{valid_utf8, decode_utf8, encode_utf8, encode_utf8_decode_utf8, encode_utf8_valid_utf8};
use vstd::bytes::{spec_u64_from_le_bytes, u64_from_le_bytes, lemma_auto_spec_u64_to_from_le_bytes};
use vstd::slice::slice_subrange;
use crate::error::{Result, TvmError};
use crate::types::{hash_bytes, spec_hash_bytes, slices_view};
use crate::wire::{enc_u64, enc_bytes, write_u64, write_bytes, write_slice};
use crate::text::{utf8_str, bytes_eq};
use libp2p::multiaddr::Protocol;

verus! {

/// The text of the peer id that libp2p reads from `text` (its base58
/// form), or `None` where libp2p reads no peer id.
pub uninterp spec fn parsed_peer_id(text: Seq<char>) -> Option<Seq<char>>;

/// The protocols of the multiaddr that libp2p reads from `text`, in order,
/// each as its text, its port where it is `/tcp` and its peer id's text
/// where it is `/p2p`; `None` where libp2p reads no multiaddr.
pub uninterp spec fn parsed_multiaddr(text: Seq<char>) -> Option<Seq<(Seq<char>, Option<u16>, Option<Seq<char>>)>>;

/// Whether libp2p reads `text` as a peer id.
pub open spec fn peer_id_text_valid(text: Seq<char>) -> bool {
    parsed_peer_id(text) is Some
}

/// Whether libp2p reads `text` as a multiaddr.
pub open spec fn multiaddr_text_valid(text: Seq<char>) -> bool {
    parsed_multiaddr(text) is Some
}

/// Calls `libp2p::PeerId::from_str` and, where it succeeds, the peer id's
/// `Display`. What comes back depends on the text alone; the contract names
/// it and claims nothing more.
#[verifier::external_body]
fn peer_id_text(text: &str) -> (out: Option<String>)
    ensures
        match out {
            Some(s) => parsed_peer_id(text@) == Some(s@),
            None => parsed_peer_id(text@) is None,
        },
{
    match text.parse::<libp2p::PeerId>() {
        Ok(peer) => Some(peer.to_string()),
        Err(_) => None,
    }
}

/// One protocol of a multiaddr as plain values: its text, its port where
/// it is `/tcp`, and its peer id's text where it is `/p2p`.
#[derive(Clone, Debug, Eq, PartialEq)]
pub struct AddrComponent {
    pub text: String,
    pub tcp_port: Option<u16>,
    pub peer: Option<String>,
}

pub open spec fn component_view(c: AddrComponent) -> (Seq<char>, Option<u16>, Option<Seq<char>>) {
    (
        c.text@,
        c.tcp_port,
        match c.peer {
            Some(p) => Some(p@),
            None => None,
        },
    )
}

pub open spec fn components_view(cs: Seq<AddrComponent>) -> Seq<(Seq<char>, Option<u16>, Option<Seq<char>>)> {
    cs.map_values(|c: AddrComponent| component_view(c))
}

/// Calls `libp2p::Multiaddr::from_str` and, where it succeeds, walks the
/// address with `Multiaddr::iter`, keeping of each protocol its `Display`,
/// the port of a `Protocol::Tcp` and the peer id's `Display` of a
/// `Protocol::P2p`. What comes back depends on the text alone; the contract
/// names it and claims nothing more.
#[verifier::external_body]
fn multiaddr_components(text: &str) -> (out: Option<Vec<AddrComponent>>)
    ensures
        match out {
            Some(cs) => parsed_multiaddr(text@) == Some(components_view(cs@)),
            None => parsed_multiaddr(text@) is None,
        },
{
    let address = match text.parse::<libp2p::Multiaddr>() {
        Ok(address) => address,
        Err(_) => return None,
    };
    let mut out = Vec::new();
    for protocol in address.iter() {
        let tcp_port = match &protocol { Protocol::Tcp(port) => Some(*port), _ => None };
        let peer = match &protocol { Protocol::P2p(peer) => Some(peer.to_string()), _ => None };
        out.push(AddrComponent { text: protocol.to_string(), tcp_port, peer });
    }
    Some(out)
}

/// A known peer: its peer id and a multiaddr it listens on, as text.
#[derive(Clone, Debug, Eq, PartialEq)]
pub struct PeerRecord {
    pub peer_id: String,
    pub address: String,
}

/// The texts of a list of records.
pub open spec fn records_view(rs: Seq<PeerRecord>) -> Seq<(Seq<char>, Seq<char>)> {
    rs.map_values(|r: PeerRecord| (r.peer_id@, r.address@))
}

/// Whether libp2p accepts a record's peer id and address.
pub open spec fn record_valid(r: (Seq<char>, Seq<char>)) -> bool {
    peer_id_text_valid(r.0) && multiaddr_text_valid(r.1)
}

impl PeerRecord {
    /// Whether libp2p accepts the peer id and the address.
    pub fn is_valid(&self) -> (out: bool)
        ensures
            out == record_valid((self.peer_id@, self.address@)),
    {
        peer_id_text(self.peer_id.as_str()).is_some() && multiaddr_components(self.address.as_str()).is_some()
    }
}

/// The first bytes of a peer book file.
pub open spec fn peer_book_magic() -> Seq<u8> {
    "TENSORVM_LIBP2P_PEER_BOOK_V1\n".spec_bytes()
}

fn magic_bytes() -> (out: &'static [u8])
    ensures
        out@ == peer_book_magic(),
{
    "TENSORVM_LIBP2P_PEER_BOOK_V1\n".as_bytes()
}

/// A record as stored: its peer id, then its address, each a counted
/// UTF-8 string.
pub open spec fn record_bytes(r: (Seq<char>, Seq<char>)) -> Seq<u8> {
    enc_bytes(encode_utf8(r.0)) + enc_bytes(encode_utf8(r.1))
}

/// The stored records, in order.
pub open spec fn records_bytes(rs: Seq<(Seq<char>, Seq<char>)>) -> Seq<u8>
    decreases rs.len(),
{
    if rs.len() == 0 {
        Seq::empty()
    } else {
        records_bytes(rs.drop_last()) + record_bytes(rs.last())
    }
}

/// The record count, then the records.
pub open spec fn peer_book_payload(rs: Seq<(Seq<char>, Seq<char>)>) -> Seq<u8> {
    enc_u64(rs.len() as u64) + records_bytes(rs)
}

/// The checksum of a payload.
pub open spec fn peer_book_digest(payload: Seq<u8>) -> Seq<u8> {
    spec_hash_bytes("tensor-vm-libp2p-peer-book-v1".spec_bytes(), seq![payload])
}

/// A peer book file: the magic line, the payload, and its checksum.
pub open spec fn spec_encode_peer_records(rs: Seq<(Seq<char>, Seq<char>)>) -> Seq<u8> {
    peer_book_magic() + peer_book_payload(rs) + peer_book_digest(peer_book_payload(rs))
}

/// A little-endian `u64` of the payload at `off`.
pub open spec fn p_book_u64(s: Seq<u8>, off: int) -> core::result::Result<(u64, int), TvmError> {
    if off < 0 || off + 8 > s.len() {
        Err(TvmError::Storage("truncated peer book u64"))
    } else {
        Ok((spec_u64_from_le_bytes(s.subrange(off, off + 8)), off + 8))
    }
}

/// A counted UTF-8 string of the payload at `off`.
pub open spec fn p_book_string(s: Seq<u8>, off: int) -> core::result::Result<(Seq<char>, int), TvmError> {
    match p_book_u64(s, off) {
        Err(e) => Err(e),
        Ok((n, o)) => {
            let len = n as usize;
            if o + len > usize::MAX {
                Err(TvmError::Storage("peer book string length overflow"))
            } else if o + len > s.len() {
                Err(TvmError::Storage("truncated peer book string"))
            } else if !valid_utf8(s.subrange(o, o + len)) {
                Err(TvmError::Storage("invalid peer book utf8"))
            } else {
                Ok((decode_utf8(s.subrange(o, o + len)), o + len))
            }
        },
    }
}

/// A record of the payload at `off`, which libp2p must accept.
pub open spec fn p_book_record(s: Seq<u8>, off: int) -> core::result::Result<((Seq<char>, Seq<char>), int), TvmError> {
    match p_book_string(s, off) {
        Err(e) => Err(e),
        Ok((peer_id, o1)) => match p_book_string(s, o1) {
            Err(e) => Err(e),
            Ok((address, o2)) => if !peer_id_text_valid(peer_id) {
                Err(TvmError::Storage("invalid peer id"))
            } else if !multiaddr_text_valid(address) {
                Err(TvmError::InvalidReceipt("invalid libp2p multiaddr"))
            } else {
                Ok(((peer_id, address), o2))
            },
        },
    }
}

/// `n` records of the payload from `off` on.
pub open spec fn p_book_records(s: Seq<u8>, off: int, n: nat) -> core::result::Result<(Seq<(Seq<char>, Seq<char>)>, int), TvmError>
    decreases n,
{
    if n == 0 {
        Ok((Seq::empty(), off))
    } else {
        match p_book_records(s, off, (n - 1) as nat) {
            Err(e) => Err(e),
            Ok((rs, o)) => match p_book_record(s, o) {
                Err(e) => Err(e),
                Ok((r, o2)) => Ok((rs.push(r), o2)),
            },
        }
    }
}

/// What a peer book file holds: its records, or the first error met
/// checking and reading it.
pub open spec fn spec_decode_peer_records(bytes: Seq<u8>) -> core::result::Result<Seq<(Seq<char>, Seq<char>)>, TvmError> {
    let ml = peer_book_magic().len() as int;
    if bytes.len() < ml || bytes.subrange(0, ml) != peer_book_magic() {
        Err(TvmError::Storage("invalid peer book magic"))
    } else if bytes.len() < ml + 8 + 32 {
        Err(TvmError::Storage("invalid peer book length"))
    } else {
        let payload = bytes.subrange(ml, bytes.len() - 32);
        if bytes.subrange(bytes.len() - 32, bytes.len() as int) != peer_book_digest(payload) {
            Err(TvmError::Storage("peer book checksum mismatch"))
        } else {
            match p_book_u64(payload, 0) {
                Err(e) => Err(e),
                Ok((count, o)) => match p_book_records(payload, o, (count as usize) as nat) {
                    Err(e) => Err(e),
                    Ok((rs, o2)) => if o2 != payload.len() {
                        Err(TvmError::Storage("trailing peer book bytes"))
                    } else {
                        Ok(rs)
                    },
                },
            }
        }
    }
}

proof fn lemma_p_book_u64_at(pre: Seq<u8>, x: u64, rest: Seq<u8>)
    ensures
        p_book_u64(pre + enc_u64(x) + rest, pre.len() as int) == Ok::<(u64, int), TvmError>((x, pre.len() as int + 8)),
{
    lemma_auto_spec_u64_to_from_le_bytes();
    assert((pre + enc_u64(x) + rest).subrange(pre.len() as int, pre.len() as int + 8) =~= enc_u64(x));
}

proof fn lemma_p_book_string_at(pre: Seq<u8>, t: Seq<char>, rest: Seq<u8>)
    requires
        (pre + enc_bytes(encode_utf8(t)) + rest).len() <= usize::MAX,
    ensures
        p_book_string(pre + enc_bytes(encode_utf8(t)) + rest, pre.len() as int)
            == Ok::<(Seq<char>, int), TvmError>((t, pre.len() as int + 8 + encode_utf8(t).len())),
{
    let b = encode_utf8(t);
    let s = pre + enc_bytes(b) + rest;
    lemma_auto_spec_u64_to_from_le_bytes();
    assert(s =~= pre + enc_u64(b.len() as u64) + (b + rest));
    lemma_p_book_u64_at(pre, b.len() as u64, b + rest);
    assert(s.subrange(pre.len() as int + 8, pre.len() as int + 8 + b.len()) =~= b);
    encode_utf8_valid_utf8(t);
    encode_utf8_decode_utf8(t);
}

proof fn lemma_p_book_record_at(pre: Seq<u8>, r: (Seq<char>, Seq<char>), rest: Seq<u8>)
    requires
        record_valid(r),
        (pre + record_bytes(r) + rest).len() <= usize::MAX,
    ensures
        p_book_record(pre + record_bytes(r) + rest, pre.len() as int)
            == Ok::<((Seq<char>, Seq<char>), int), TvmError>((r, pre.len() as int + record_bytes(r).len())),
{
    let s = pre + record_bytes(r) + rest;
    let a = enc_bytes(encode_utf8(r.0));
    let b = enc_bytes(encode_utf8(r.1));
    lemma_auto_spec_u64_to_from_le_bytes();
    assert(a.len() == 8 + encode_utf8(r.0).len());
    assert(b.len() == 8 + encode_utf8(r.1).len());
    assert(record_bytes(r).len() == a.len() + b.len());
    assert(s =~= pre + a + (b + rest));
    lemma_p_book_string_at(pre, r.0, b + rest);
    assert(s =~= (pre + a) + b + rest);
    lemma_p_book_string_at(pre + a, r.1, rest);
}

proof fn lemma_p_book_records_at(pre: Seq<u8>, rs: Seq<(Seq<char>, Seq<char>)>, rest: Seq<u8>)
    requires
        forall|i: int| 0 <= i < rs.len() ==> record_valid(#[trigger] rs[i]),
        (pre + records_bytes(rs) + rest).len() <= usize::MAX,
    ensures
        p_book_records(pre + records_bytes(rs) + rest, pre.len() as int, rs.len())
            == Ok::<(Seq<(Seq<char>, Seq<char>)>, int), TvmError>((rs, pre.len() as int + records_bytes(rs).len())),
    decreases rs.len(),
{
    if rs.len() == 0 {
        assert(rs =~= Seq::<(Seq<char>, Seq<char>)>::empty());
    } else {
        let init = rs.drop_last();
        let r = rs.last();
        let s = pre + records_bytes(rs) + rest;
        assert(s =~= pre + records_bytes(init) + (record_bytes(r) + rest));
        assert forall|i: int| 0 <= i < init.len() implies record_valid(#[trigger] init[i]) by {
            assert(init[i] == rs[i]);
        }
        lemma_p_book_records_at(pre, init, record_bytes(r) + rest);
        assert(s =~= (pre + records_bytes(init)) + record_bytes(r) + rest);
        assert(record_valid(rs[rs.len() - 1]));
        lemma_p_book_record_at(pre + records_bytes(init), r, rest);
        assert(init.push(r) =~= rs);
    }
}

/// Writes a peer book file's bytes; reading them back gives the records
/// whenever libp2p accepts every record's peer id and address.
pub fn encode_peer_records(records: &[PeerRecord]) -> (out: Vec<u8>)
    ensures
        out@ == spec_encode_peer_records(records_view(records@)),
        (forall|i: int| 0 <= i < records@.len() ==> record_valid(#[trigger] records_view(records@)[i]))
            ==> spec_decode_peer_records(out@) == Ok::<Seq<(Seq<char>, Seq<char>)>, TvmError>(records_view(records@)),
{
    let ghost rv = records_view(records@);
    let mut payload: Vec<u8> = Vec::new();
    write_u64(&mut payload, records.len() as u64);
    let mut i: usize = 0;
    while i < records.len()
        invariant
            rv == records_view(records@),
            i <= records@.len(),
            payload@ == enc_u64(records@.len() as u64) + records_bytes(rv.subrange(0, i as int)),
        decreases records@.len() - i,
    {
        let record = &records[i];
        write_bytes(&mut payload, record.peer_id.as_str().as_bytes());
        write_bytes(&mut payload, record.address.as_str().as_bytes());
        proof {
            let t = rv.subrange(0, i + 1);
            assert(t.drop_last() =~= rv.subrange(0, i as int));
            assert(t.last() == (record.peer_id@, record.address@));
        }
        i += 1;
    }
    assert(rv.subrange(0, rv.len() as int) =~= rv);
    assert(payload@ == peer_book_payload(rv));
    let parts: Vec<&[u8]> = vec![payload.as_slice()];
    assert(slices_view(parts@) =~= seq![payload@]);
    let digest = hash_bytes("tensor-vm-libp2p-peer-book-v1".as_bytes(), parts.as_slice());
    let mut out: Vec<u8> = Vec::new();
    write_slice(&mut out, magic_bytes());
    write_slice(&mut out, payload.as_slice());
    write_slice(&mut out, digest.as_slice());
    let payload_len = payload.len();
    proof {
        assert(payload@.len() == payload_len);
        let s = out@;
        let m = peer_book_magic();
        let p = payload@;
        let d = digest@;
        assert(s == m + p + d);
        if forall|i: int| 0 <= i < records@.len() ==> record_valid(#[trigger] records_view(records@)[i]) {
            let ml = m.len() as int;
            lemma_auto_spec_u64_to_from_le_bytes();
            assert(s.subrange(0, ml) =~= m);
            assert(p.len() >= 8);
            assert(d.len() == 32);
            assert(s.subrange(ml, s.len() - 32) =~= p);
            assert(s.subrange(s.len() - 32, s.len() as int) =~= d);
            assert(p =~= Seq::<u8>::empty() + enc_u64(rv.len() as u64) + records_bytes(rv));
            lemma_p_book_u64_at(Seq::<u8>::empty(), rv.len() as u64, records_bytes(rv));
            assert(((rv.len() as u64) as usize) as nat == rv.len());
            assert(p =~= enc_u64(rv.len() as u64) + records_bytes(rv) + Seq::<u8>::empty());
            lemma_p_book_records_at(enc_u64(rv.len() as u64), rv, Seq::<u8>::empty());
        }
    }
    out
}

/// Reads a little-endian `u64` at `offset`, moving past it.
pub fn read_peer_u64(bytes: &[u8], offset: &mut usize) -> (out: Result<u64>)
    ensures
        match p_book_u64(bytes@, *old(offset) as int) {
            Ok((v, o)) => out == Ok::<u64, TvmError>(v) && *final(offset) == o && o <= bytes@.len(),
            Err(e) => out == Err::<u64, TvmError>(e) && *final(offset) == *old(offset),
        },
{
    if *offset > bytes.len() || bytes.len() - *offset < 8 {
        return Err(TvmError::Storage("truncated peer book u64"));
    }
    let v = u64_from_le_bytes(slice_subrange(bytes, *offset, *offset + 8));
    *offset = *offset + 8;
    Ok(v)
}

/// Reads a counted UTF-8 string at `offset`, moving past it.
pub fn read_peer_string(bytes: &[u8], offset: &mut usize) -> (out: Result<String>)
    ensures
        match p_book_string(bytes@, *old(offset) as int) {
            Ok((t, o)) => (out matches Ok(v) && v@ == t) && *final(offset) == o && o <= bytes@.len(),
            Err(e) => out == Err::<String, TvmError>(e) && (
                if p_book_u64(bytes@, *old(offset) as int) is Err {
                    *final(offset) == *old(offset)
                } else if e == TvmError::Storage("invalid peer book utf8") {
                    *final(offset) == *old(offset) + 8 + (p_book_u64(bytes@, *old(offset) as int)->Ok_0.0 as usize)
                } else {
                    *final(offset) == *old(offset) + 8
                }),
        },
{
    let len = read_peer_u64(bytes, offset)? as usize;
    let end = match offset.checked_add(len) {
        Some(end) => end,
        None => return Err(TvmError::Storage("peer book string length overflow")),
    };
    if end > bytes.len() {
        return Err(TvmError::Storage("truncated peer book string"));
    }
    let raw = slice_subrange(bytes, *offset, end);
    *offset = end;
    match utf8_str(raw) {
        Some(text) => {
            proof {
                encode_utf8_decode_utf8(text@);
            }
            Ok(text.to_owned())
        },
        None => Err(TvmError::Storage("invalid peer book utf8")),
    }
}

proof fn lemma_p_book_records_err(s: Seq<u8>, off: int, i: nat, n: nat)
    requires
        i <= n,
        p_book_records(s, off, i) is Err,
    ensures
        p_book_records(s, off, n) == p_book_records(s, off, i),
    decreases n - i,
{
    if i < n {
        lemma_p_book_records_err(s, off, i, (n - 1) as nat);
    }
}

/// Reads a peer book file: checks the magic line, the length and the
/// checksum, then reads the records, each of which libp2p must accept.
pub fn decode_peer_records(bytes: &[u8]) -> (out: Result<Vec<PeerRecord>>)
    ensures
        match (out, spec_decode_peer_records(bytes@)) {
            (Ok(rs), Ok(v)) => records_view(rs@) == v,
            (Err(e), Err(f)) => e == f,
            _ => false,
        },
{
    let magic = magic_bytes();
    let ml = magic.len();
    if bytes.len() < ml || !bytes_eq(slice_subrange(bytes, 0, ml), magic) {
        return Err(TvmError::Storage("invalid peer book magic"));
    }
    if bytes.len() - ml < 8 + 32 {
        return Err(TvmError::Storage("invalid peer book length"));
    }
    let payload_end = bytes.len() - 32;
    let payload = slice_subrange(bytes, ml, payload_end);
    let parts: Vec<&[u8]> = vec![payload];
    assert(slices_view(parts@) =~= seq![payload@]);
    let expected_digest = hash_bytes("tensor-vm-libp2p-peer-book-v1".as_bytes(), parts.as_slice());
    if !bytes_eq(slice_subrange(bytes, payload_end, bytes.len()), expected_digest.as_slice()) {
        return Err(TvmError::Storage("peer book checksum mismatch"));
    }
    let mut offset: usize = 0;
    let record_count = read_peer_u64(payload, &mut offset)? as usize;
    let ghost o0 = offset as int;
    let mut records: Vec<PeerRecord> = Vec::new();
    assert(records_view(records@) =~= Seq::<(Seq<char>, Seq<char>)>::empty());
    let mut k: usize = 0;
    while k < record_count
        invariant
            offset <= payload@.len(),
            k <= record_count,
            payload@ == bytes@.subrange(ml as int, bytes@.len() - 32),
            ml == peer_book_magic().len(),
            bytes@.len() >= ml + 8 + 32,
            bytes@.subrange(0, ml as int) == peer_book_magic(),
            bytes@.subrange(bytes@.len() - 32, bytes@.len() as int) == peer_book_digest(payload@),
            p_book_u64(payload@, 0) matches Ok((c, o)) && c as usize == record_count && o == o0,
            p_book_records(payload@, o0, k as nat)
                == Ok::<(Seq<(Seq<char>, Seq<char>)>, int), TvmError>((records_view(records@), offset as int)),
        decreases record_count - k,
    {
        let ghost before = offset as int;
        let peer_id = match read_peer_string(payload, &mut offset) {
            Ok(t) => t,
            Err(e) => {
                proof {
                    lemma_p_book_records_err(payload@, o0, (k + 1) as nat, record_count as nat);
                }
                return Err(e);
            },
        };
        let address = match read_peer_string(payload, &mut offset) {
            Ok(t) => t,
            Err(e) => {
                proof {
                    lemma_p_book_records_err(payload@, o0, (k + 1) as nat, record_count as nat);
                }
                return Err(e);
            },
        };
        let record = PeerRecord { peer_id, address };
        if peer_id_text(record.peer_id.as_str()).is_none() {
            proof {
                lemma_p_book_records_err(payload@, o0, (k + 1) as nat, record_count as nat);
            }
            return Err(TvmError::Storage("invalid peer id"));
        }
        if multiaddr_components(record.address.as_str()).is_none() {
            proof {
                lemma_p_book_records_err(payload@, o0, (k + 1) as nat, record_count as nat);
            }
            return Err(TvmError::InvalidReceipt("invalid libp2p multiaddr"));
        }
        let ghost prev = records_view(records@);
        records.push(record);
        proof {
            assert(records_view(records@) =~= prev.push((record.peer_id@, record.address@)));
        }
        k += 1;
    }
    if offset != payload.len() {
        return Err(TvmError::Storage("trailing peer book bytes"));
    }
    Ok(records)
}

/// The first position from `i` on of a record for peer `p`, or the length.
pub open spec fn peer_position(rs: Seq<(Seq<char>, Seq<char>)>, i: int, p: Seq<char>) -> int
    decreases rs.len() - i,
{
    if 0 <= i < rs.len() && rs[i].0 != p {
        peer_position(rs, i + 1, p)
    } else {
        i
    }
}

/// The records with `r` in place of the first record for its peer, or
/// added at the end when there is none.
pub open spec fn spec_upsert_record(rs: Seq<(Seq<char>, Seq<char>)>, r: (Seq<char>, Seq<char>)) -> Seq<(Seq<char>, Seq<char>)> {
    let i = peer_position(rs, 0, r.0);
    if i < rs.len() {
        rs.update(i, r)
    } else {
        rs.push(r)
    }
}

proof fn lemma_peer_position_bounds(rs: Seq<(Seq<char>, Seq<char>)>, i: int, p: Seq<char>)
    requires
        0 <= i <= rs.len(),
    ensures
        i <= peer_position(rs, i, p) <= rs.len(),
        peer_position(rs, i, p) < rs.len() ==> rs[peer_position(rs, i, p)].0 == p,
        forall|j: int| i <= j < peer_position(rs, i, p) ==> rs[j].0 != p,
    decreases rs.len() - i,
{
    if i < rs.len() && rs[i].0 != p {
        lemma_peer_position_bounds(rs, i + 1, p);
    }
}

/// Whether no two records are for one peer.
pub open spec fn unique_peers(rs: Seq<(Seq<char>, Seq<char>)>) -> bool {
    forall|a: int, b: int| 0 <= a < rs.len() && 0 <= b < rs.len() && a != b ==> rs[a].0 != rs[b].0
}

/// An upsert replaces, in place, the first stored record for the new
/// record's peer, leaving every other record as it was and the number of
/// records unchanged; only where no record is for that peer does it add the
/// new record at the end. A book with one record per peer keeps one record
/// per peer, and the peer's one record then carries the new address.
pub proof fn lemma_upsert_replaces_the_stored_record(rs: Seq<(Seq<char>, Seq<char>)>, r: (Seq<char>, Seq<char>))
    ensures
        ({
            let out = spec_upsert_record(rs, r);
            &&& (exists|i: int| 0 <= i < rs.len() && rs[i].0 == r.0) ==> {
                &&& out.len() == rs.len()
                &&& exists|k: int| #![trigger rs[k]]
                    0 <= k < rs.len() && rs[k].0 == r.0 && (forall|j: int| 0 <= j < k ==> rs[j].0 != r.0)
                        && out[k] == r && (forall|j: int| 0 <= j < rs.len() && j != k ==> out[j] == rs[j])
            }
            &&& (forall|i: int| 0 <= i < rs.len() ==> rs[i].0 != r.0) ==> out == rs.push(r)
            &&& unique_peers(rs) ==> unique_peers(out)
                && (forall|j: int| 0 <= j < out.len() && out[j].0 == r.0 ==> out[j] == r)
        }),
{
    lemma_peer_position_bounds(rs, 0, r.0);
    let k = peer_position(rs, 0, r.0);
    let out = spec_upsert_record(rs, r);
    if exists|i: int| 0 <= i < rs.len() && rs[i].0 == r.0 {
        let i = choose|i: int| 0 <= i < rs.len() && rs[i].0 == r.0;
        assert(k < rs.len()) by {
            if k >= rs.len() {
                assert(rs[i].0 != r.0);
            }
        }
        assert(out[k] == r);
        assert(0 <= k < rs.len() && rs[k].0 == r.0 && (forall|j: int| 0 <= j < k ==> rs[j].0 != r.0)
            && out[k] == r && (forall|j: int| 0 <= j < rs.len() && j != k ==> out[j] == rs[j]));
    } else {
        assert(k == rs.len()) by {
            if k < rs.len() {
                assert(rs[k].0 == r.0);
            }
        }
    }
    if unique_peers(rs) {
        if k < rs.len() {
            assert forall|a: int, b: int| 0 <= a < out.len() && 0 <= b < out.len() && a != b implies out[a].0 != out[b].0 by {
                if a == k {
                    assert(rs[b].0 != rs[k].0);
                } else if b == k {
                    assert(rs[a].0 != rs[k].0);
                }
            }
            assert forall|j: int| 0 <= j < out.len() && out[j].0 == r.0 implies out[j] == r by {
                if j != k {
                    assert(rs[j].0 != rs[k].0);
                }
            }
        } else {
            assert forall|a: int, b: int| 0 <= a < out.len() && 0 <= b < out.len() && a != b implies out[a].0 != out[b].0 by {
                if a == rs.len() {
                    assert(rs[b].0 != r.0);
                } else if b == rs.len() {
                    assert(rs[a].0 != r.0);
                }
            }
        }
    }
}

/// Puts `record` in place of the stored record for its peer id, or adds
/// it at the end.
pub fn upsert_peer_record(records: &mut Vec<PeerRecord>, record: PeerRecord)
    ensures
        records_view(final(records)@) == spec_upsert_record(records_view(old(records)@), (record.peer_id@, record.address@)),
{
    let ghost rv = records_view(records@);
    let ghost r = (record.peer_id@, record.address@);
    proof {
        lemma_peer_position_bounds(rv, 0, r.0);
    }
    let mut i: usize = 0;
    while i < records.len() && !crate::text::str_eq(records[i].peer_id.as_str(), record.peer_id.as_str())
        invariant
            rv == records_view(records@),
            r == (record.peer_id@, record.address@),
            i <= records@.len(),
            peer_position(rv, i as int, r.0) == peer_position(rv, 0, r.0),
        decreases records@.len() - i,
    {
        i += 1;
    }
    if i < records.len() {
        records[i] = record;
        proof {
            assert(records_view(records@) =~= rv.update(i as int, r));
        }
    } else {
        records.push(record);
        proof {
            assert(records_view(records@) =~= rv.push(r));
        }
    }
}

/// Whether a protocol's port is that of `/tcp` on a port other than 0.
pub open spec fn nonzero_port(port: Option<u16>) -> bool {
    match port {
        Some(p) => p != 0,
        None => false,
    }
}

/// Whether some protocol of an address is `/tcp` with a port other than 0.
pub open spec fn has_nonzero_tcp(cs: Seq<(Seq<char>, Option<u16>, Option<Seq<char>>)>) -> bool {
    exists|i: int| 0 <= i < cs.len() && nonzero_port((#[trigger] cs[i]).1)
}

/// The text of an address: the texts of its protocols one after another.
pub open spec fn address_text(cs: Seq<(Seq<char>, Option<u16>, Option<Seq<char>>)>) -> Seq<char>
    decreases cs.len(),
{
    if cs.len() == 0 {
        Seq::empty()
    } else {
        address_text(cs.drop_last()) + cs.last().0
    }
}

/// The address to dial a recorded peer at: its multiaddr, ending in
/// `/p2p/` and the peer id. The address must name a nonzero TCP port; an
/// address that already ends in a `/p2p/` protocol is kept as it is if that
/// names the record's peer (peer ids compare by their text, which libp2p
/// writes one-to-one from the id's bytes) and refused otherwise, and any
/// other address gets `/p2p/` and the peer id appended.
pub open spec fn spec_bootstrap_address(r: (Seq<char>, Seq<char>)) -> core::result::Result<Seq<char>, TvmError> {
    match parsed_peer_id(r.0) {
        None => Err(TvmError::Storage("invalid peer id")),
        Some(peer) => match parsed_multiaddr(r.1) {
            None => Err(TvmError::InvalidReceipt("invalid libp2p multiaddr")),
            Some(cs) => if !has_nonzero_tcp(cs) {
                Err(TvmError::Storage("peer book address missing tcp port"))
            } else if cs.len() > 0 && cs.last().2 is Some {
                if cs.last().2 != Some(peer) {
                    Err(TvmError::Storage("peer book address peer id mismatch"))
                } else {
                    Ok(address_text(cs))
                }
            } else {
                Ok(address_text(cs) + "/p2p/"@ + peer)
            },
        },
    }
}

/// The bootstrap addresses of a list of records in order, or the error of
/// the first record that has none.
pub open spec fn spec_bootstrap_addresses(rs: Seq<(Seq<char>, Seq<char>)>) -> core::result::Result<Seq<Seq<char>>, TvmError>
    decreases rs.len(),
{
    if rs.len() == 0 {
        Ok(Seq::empty())
    } else {
        match spec_bootstrap_addresses(rs.drop_last()) {
            Err(e) => Err(e),
            Ok(v) => match spec_bootstrap_address(rs.last()) {
                Err(e) => Err(e),
                Ok(a) => Ok(v.push(a)),
            },
        }
    }
}

/// The bootstrap addresses of a book are its records' addresses, one per
/// record and in the records' order; they fail exactly when some record's
/// address fails, and then with the error of the first such record.
pub proof fn lemma_bootstrap_addresses_per_record(rs: Seq<(Seq<char>, Seq<char>)>)
    ensures
        (spec_bootstrap_addresses(rs) is Ok) <==> (forall|i: int| 0 <= i < rs.len() ==> (#[trigger] spec_bootstrap_address(rs[i])) is Ok),
        spec_bootstrap_addresses(rs) is Ok ==> spec_bootstrap_addresses(rs)->Ok_0.len() == rs.len()
            && forall|i: int| 0 <= i < rs.len() ==> #[trigger] spec_bootstrap_address(rs[i]) == Ok::<Seq<char>, TvmError>(
                spec_bootstrap_addresses(rs)->Ok_0[i]),
        spec_bootstrap_addresses(rs) is Err ==> exists|i: int| 0 <= i < rs.len()
            && spec_bootstrap_address(rs[i]) == Err::<Seq<char>, TvmError>(spec_bootstrap_addresses(rs)->Err_0)
            && forall|j: int| 0 <= j < i ==> (#[trigger] spec_bootstrap_address(rs[j])) is Ok,
    decreases rs.len(),
{
    if rs.len() > 0 {
        let t = rs.drop_last();
        lemma_bootstrap_addresses_per_record(t);
        assert forall|i: int| 0 <= i < t.len() implies rs[i] == t[i] by {}
        let last = rs.len() - 1;
        assert(rs[last] == rs.last());
        if spec_bootstrap_addresses(t) is Err {
            let i = choose|i: int| 0 <= i < t.len()
                && spec_bootstrap_address(t[i]) == Err::<Seq<char>, TvmError>(spec_bootstrap_addresses(t)->Err_0)
                && forall|j: int| 0 <= j < i ==> (#[trigger] spec_bootstrap_address(t[j])) is Ok;
            assert(spec_bootstrap_address(rs[i]) == spec_bootstrap_address(t[i]));
            assert forall|j: int| 0 <= j < i implies (#[trigger] spec_bootstrap_address(rs[j])) is Ok by {
                assert(rs[j] == t[j]);
            }
        } else if spec_bootstrap_address(rs.last()) is Err {
            assert forall|j: int| 0 <= j < last implies (#[trigger] spec_bootstrap_address(rs[j])) is Ok by {
                assert(rs[j] == t[j]);
            }
        } else {
            assert forall|i: int| 0 <= i < rs.len() implies #[trigger] spec_bootstrap_address(rs[i]) == Ok::<Seq<char>, TvmError>(
                spec_bootstrap_addresses(rs)->Ok_0[i]) by {
                if i < last {
                    assert(rs[i] == t[i]);
                }
            }
        }
    }
}

fn has_tcp_port(cs: &Vec<AddrComponent>) -> (out: bool)
    ensures
        out == has_nonzero_tcp(components_view(cs@)),
{
    let ghost v = components_view(cs@);
    let mut i: usize = 0;
    while i < cs.len()
        invariant
            v == components_view(cs@),
            i <= cs@.len(),
            forall|j: int| 0 <= j < i ==> !nonzero_port((#[trigger] v[j]).1),
        decreases cs@.len() - i,
    {
        match cs[i].tcp_port {
            Some(port) => {
                if port != 0 {
                    assert(v[i as int].1 == Some(port));
                    return true;
                }
            },
            None => {},
        }
        assert(v[i as int].1 == cs@[i as int].tcp_port);
        i += 1;
    }
    false
}

fn join_texts(cs: &Vec<AddrComponent>) -> (out: String)
    ensures
        out@ == address_text(components_view(cs@)),
{
    let ghost v = components_view(cs@);
    let mut out = String::new();
    let mut i: usize = 0;
    while i < cs.len()
        invariant
            v == components_view(cs@),
            i <= cs@.len(),
            out@ == address_text(v.take(i as int)),
        decreases cs@.len() - i,
    {
        let ghost before = out@;
        out.append(cs[i].text.as_str());
        proof {
            assert(v.take(i + 1).drop_last() =~= v.take(i as int));
            assert(v.take(i + 1).last() == v[i as int]);
        }
        i += 1;
    }
    assert(v.take(cs@.len() as int) =~= v);
    out
}

impl PeerRecord {
    /// The record's peer id as libp2p writes it.
    pub fn peer_id(&self) -> (out: Result<String>)
        ensures
            match parsed_peer_id(self.peer_id@) {
                Some(p) => out matches Ok(s) && s@ == p,
                None => out == Err::<String, TvmError>(TvmError::Storage("invalid peer id")),
            },
    {
        match peer_id_text(self.peer_id.as_str()) {
            Some(p) => Ok(p),
            None => Err(TvmError::Storage("invalid peer id")),
        }
    }

    /// The protocols of the record's multiaddr.
    pub fn multiaddr(&self) -> (out: Result<Vec<AddrComponent>>)
        ensures
            match parsed_multiaddr(self.address@) {
                Some(cs) => out matches Ok(v) && components_view(v@) == cs,
                None => out == Err::<Vec<AddrComponent>, TvmError>(TvmError::InvalidReceipt("invalid libp2p multiaddr")),
            },
    {
        match multiaddr_components(self.address.as_str()) {
            Some(cs) => Ok(cs),
            None => Err(TvmError::InvalidReceipt("invalid libp2p multiaddr")),
        }
    }

    /// The text of the address to dial this peer at.
    pub fn bootstrap_multiaddr(&self) -> (out: Result<String>)
        ensures
            match (out, spec_bootstrap_address((self.peer_id@, self.address@))) {
                (Ok(s), Ok(t)) => s@ == t,
                (Err(e), Err(f)) => e == f,
                _ => false,
            },
    {
        let peer = self.peer_id()?;
        let cs = self.multiaddr()?;
        let ghost v = components_view(cs@);
        if !has_tcp_port(&cs) {
            return Err(TvmError::Storage("peer book address missing tcp port"));
        }
        let n = cs.len();
        if n > 0 {
            assert(v.last() == component_view(cs@[n - 1]));
            match &cs[n - 1].peer {
                Some(embedded) => {
                    if !crate::text::str_eq(embedded.as_str(), peer.as_str()) {
                        return Err(TvmError::Storage("peer book address peer id mismatch"));
                    }
                    return Ok(join_texts(&cs));
                },
                None => {},
            }
        }
        let mut address = join_texts(&cs);
        address.append("/p2p/");
        address.append(peer.as_str());
        proof {
            reveal_strlit("/p2p/");
        }
        Ok(address)
    }

    /// A record for a peer id and an address, accepted only where it gives a
    /// bootstrap address.
    pub fn from_strings(peer_id: &str, address: &str) -> (out: Result<PeerRecord>)
        ensures
            match spec_bootstrap_address((peer_id@, address@)) {
                Ok(_) => out matches Ok(r) && r.peer_id@ == peer_id@ && r.address@ == address@,
                Err(e) => out == Err::<PeerRecord, TvmError>(e),
            },
    {
        let record = PeerRecord { peer_id: peer_id.to_owned(), address: address.to_owned() };
        match record.bootstrap_multiaddr() {
            Ok(_) => Ok(record),
            Err(e) => Err(e),
        }
    }
}

/// The bootstrap address of every record in order; the first record that
/// has none decides the error.
pub fn bootstrap_addresses(records: &[PeerRecord]) -> (out: Result<Vec<String>>)
    ensures
        match spec_bootstrap_addresses(records_view(records@)) {
            Ok(v) => out matches Ok(w) && w@.map_values(|s: String| s@) == v,
            Err(e) => out == Err::<Vec<String>, TvmError>(e),
        },
{
    let ghost rv = records_view(records@);
    let mut out: Vec<String> = Vec::new();
    let mut i: usize = 0;
    assert(rv.take(0) =~= Seq::<(Seq<char>, Seq<char>)>::empty());
    assert(out@.map_values(|s: String| s@) =~= Seq::<Seq<char>>::empty());
    while i < records.len()
        invariant
            rv == records_view(records@),
            i <= records@.len(),
            spec_bootstrap_addresses(rv.take(i as int)) == Ok::<Seq<Seq<char>>, TvmError>(out@.map_values(|s: String| s@)),
        decreases records@.len() - i,
    {
        proof {
            assert(rv.take(i + 1).drop_last() =~= rv.take(i as int));
            assert(rv.take(i + 1).last() == rv[i as int]);
        }
        match records[i].bootstrap_multiaddr() {
            Ok(a) => {
                let ghost before = out@;
                out.push(a);
                proof {
                    assert(out@.map_values(|s: String| s@) =~= before.map_values(|s: String| s@).push(a@));
                }
            },
            Err(e) => {
                proof {
                    lemma_bootstrap_error_propagates(rv, i + 1, e);
                }
                return Err(e);
            },
        }
        i += 1;
    }
    assert(rv.take(records@.len() as int) =~= rv);
    Ok(out)
}

proof fn lemma_bootstrap_error_propagates(rs: Seq<(Seq<char>, Seq<char>)>, j: int, e: TvmError)
    requires
        0 <= j <= rs.len(),
        spec_bootstrap_addresses(rs.take(j)) == Err::<Seq<Seq<char>>, TvmError>(e),
    ensures
        spec_bootstrap_addresses(rs) == Err::<Seq<Seq<char>>, TvmError>(e),
    decreases rs.len() - j,
{
    if j < rs.len() {
        assert(rs.take(j + 1).drop_last() =~= rs.take(j));
        lemma_bootstrap_error_propagates(rs, j + 1, e);
    } else {
        assert(rs.take(j) =~= rs);
    }
}


/// Splits a dial address into the peer it ends in and the address before
/// it; `None` where its last protocol is not `/p2p/`.
pub fn bootstrap_peer_address(address: Vec<AddrComponent>) -> (out: Option<(String, Vec<AddrComponent>)>)
    ensures
        ({
            let cs = components_view(address@);
            match out {
                Some((peer, rest)) => cs.len() > 0 && cs.last().2 == Some(peer@) && components_view(rest@) == cs.drop_last(),
                None => cs.len() == 0 || cs.last().2 is None,
            }
        }),
{
    let ghost cs = components_view(address@);
    let mut rest = address;
    match rest.pop() {
        Some(last) => {
            proof {
                assert(components_view(rest@) =~= cs.drop_last());
                assert(cs.last() == component_view(last));
            }
            match last.peer {
                Some(peer) => Some((peer, rest)),
                None => None,
            }
        },
        None => None,
    }
}

} // verus!
