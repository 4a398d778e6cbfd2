//! Ethereum address derivation of the Ethereum Address Manager (CREATE and CREATE2).

use vstd::prelude::*;

verus! {

/// A 20-byte Ethereum address.
#[derive(Clone, Copy, Debug)]
pub struct EthAddress(pub [u8; 20]);

/// The minimal big-endian bytes of `n` (empty for zero).
pub open spec fn be_min(n: nat) -> Seq<u8>
    decreases n,
{
    if n == 0 {
        seq![]
    } else {
        be_min(n / 256).push((n % 256) as u8)
    }
}

/// RLP encoding of a byte string shorter than 56 bytes.
pub open spec fn rlp_bytes(s: Seq<u8>) -> Seq<u8> {
    if s.len() == 1 && s[0] < 0x80 {
        s
    } else {
        seq![(0x80 + s.len()) as u8] + s
    }
}

/// RLP encoding of the two-item list `[from, nonce]` that CREATE hashes.
pub open spec fn rlp_create_spec(from: Seq<u8>, nonce: u64) -> Seq<u8> {
    let payload = rlp_bytes(from) + rlp_bytes(be_min(nonce as nat));
    seq![(0xc0 + payload.len()) as u8] + payload
}

/// The CREATE2 preimage: `0xff`, the creator, the salt and the init-code hash.
pub open spec fn create2_preimage_spec(from: Seq<u8>, salt: Seq<u8>, inithash: Seq<u8>) -> Seq<u8> {
    seq![0xffu8] + from + salt + inithash
}

/// Calls `rlp::RlpStream` to encode the list `[from, nonce]` (`begin_list(2)`, `append`
/// of the address bytes and of the nonce, `out`). The contract claims the result is the
/// RLP encoding: a short string header `0x80 + len` before the 20 address bytes, the nonce
/// as its minimal big-endian bytes (a single byte below `0x80` standing for itself), and a
/// list header `0xc0 + payload length`.
#[verifier::external_body]
fn rlp_encode_create(from: &[u8; 20], nonce: u64) -> (res: Vec<u8>)
    ensures
        res@ == rlp_create_spec(from@, nonce),
{
    let mut stream = rlp::RlpStream::new();
    stream.begin_list(2).append(&&from[..]).append(&nonce);
    stream.out().to_vec()
}

/// The address made of the last 20 bytes of a 32-byte digest.
pub fn hash_20(digest: &[u8; 32]) -> (res: EthAddress)
    ensures
        res.0@ == digest@.subrange(12, 32),
{
    let mut out = [0u8; 20];
    let mut i: usize = 0;
    while i < 20
        invariant
            i <= 20,
            out@.len() == 20,
            forall|j: int| 0 <= j < i ==> out@[j] == digest@[12 + j],
        decreases 20 - i,
    {
        out[i] = digest[12 + i];
        i = i + 1;
    }
    assert(out@ =~= digest@.subrange(12, 32));
    EthAddress(out)
}

/// The RLP preimage that CREATE hashes.
pub fn create_preimage(from: &EthAddress, nonce: u64) -> (res: Vec<u8>)
    ensures
        res@ == rlp_create_spec(from.0@, nonce),
{
    rlp_encode_create(&from.0, nonce)
}

/// The preimage that CREATE2 hashes.
pub fn create2_preimage(from: &EthAddress, salt: &[u8; 32], inithash: &[u8; 32]) -> (res: Vec<u8>)
    ensures
        res@ == create2_preimage_spec(from.0@, salt@, inithash@),
{
    let mut out: Vec<u8> = Vec::new();
    out.push(0xff);
    let mut i: usize = 0;
    while i < 20
        invariant
            i <= 20,
            out@ == seq![0xffu8] + from.0@.subrange(0, i as int),
        decreases 20 - i,
    {
        out.push(from.0[i]);
        assert(from.0@.subrange(0, (i + 1) as int) =~= from.0@.subrange(0, i as int).push(from.0@[i as int]));
        i = i + 1;
    }
    assert(from.0@.subrange(0, 20) =~= from.0@);
    let mut i: usize = 0;
    while i < 32
        invariant
            i <= 32,
            out@ == seq![0xffu8] + from.0@ + salt@.subrange(0, i as int),
        decreases 32 - i,
    {
        out.push(salt[i]);
        assert(salt@.subrange(0, (i + 1) as int) =~= salt@.subrange(0, i as int).push(salt@[i as int]));
        i = i + 1;
    }
    assert(salt@.subrange(0, 32) =~= salt@);
    let mut i: usize = 0;
    while i < 32
        invariant
            i <= 32,
            out@ == seq![0xffu8] + from.0@ + salt@ + inithash@.subrange(0, i as int),
        decreases 32 - i,
    {
        out.push(inithash[i]);
        assert(inithash@.subrange(0, (i + 1) as int) =~= inithash@.subrange(0, i as int).push(inithash@[i as int]));
        i = i + 1;
    }
    assert(inithash@.subrange(0, 32) =~= inithash@);
    out
}

/// The address CREATE assigns: the last 20 bytes of the Keccak-256 digest of the RLP
/// encoding of `[from, nonce]`, with `keccak` computing the digest.
pub fn compute_address_create<H: Fn(Vec<u8>) -> [u8; 32]>(keccak: &H, from: &EthAddress, nonce: u64) -> (res: EthAddress)
    requires
        forall|input: Vec<u8>| keccak.requires((input,)),
    ensures
        exists|input: Vec<u8>, digest: [u8; 32]| {
            &&& input@ == rlp_create_spec(from.0@, nonce)
            &&& keccak.ensures((input,), digest)
            &&& res.0@ == digest@.subrange(12, 32)
        },
{
    let preimage = create_preimage(from, nonce);
    let ghost p = preimage;
    let digest = keccak(preimage);
    let res = hash_20(&digest);
    assert(keccak.ensures((p,), digest));
    res
}

/// The address CREATE2 assigns: the last 20 bytes of the Keccak-256 digest of `0xff`,
/// the creator, the salt and the Keccak-256 digest of the init code.
pub fn compute_address_create2<H: Fn(Vec<u8>) -> [u8; 32]>(keccak: &H, from: &EthAddress, salt: &[u8; 32], initcode: &[u8]) -> (res: EthAddress)
    requires
        forall|input: Vec<u8>| keccak.requires((input,)),
    ensures
        exists|code: Vec<u8>, inithash: [u8; 32], input: Vec<u8>, digest: [u8; 32]| {
            &&& code@ == initcode@
            &&& keccak.ensures((code,), inithash)
            &&& input@ == create2_preimage_spec(from.0@, salt@, inithash@)
            &&& keccak.ensures((input,), digest)
            &&& res.0@ == digest@.subrange(12, 32)
        },
{
    let mut code: Vec<u8> = Vec::new();
    let mut i: usize = 0;
    while i < initcode.len()
        invariant
            i <= initcode@.len(),
            code@ == initcode@.subrange(0, i as int),
        decreases initcode@.len() - i,
    {
        code.push(initcode[i]);
        assert(initcode@.subrange(0, (i + 1) as int) =~= initcode@.subrange(0, i as int).push(initcode@[i as int]));
        i = i + 1;
    }
    assert(initcode@.subrange(0, initcode@.len() as int) =~= initcode@);
    let ghost c = code;
    let inithash = keccak(code);
    let preimage = create2_preimage(from, salt, &inithash);
    let ghost p = preimage;
    let digest = keccak(preimage);
    let res = hash_20(&digest);
    assert(keccak.ensures((c,), inithash));
    assert(keccak.ensures((p,), digest));
    res
}

/// CREATE for an externally owned account: CREATE with the message's nonce.
pub fn compute_address_create_external<H: Fn(Vec<u8>) -> [u8; 32]>(keccak: &H, from: &EthAddress, message_nonce: u64) -> (res: EthAddress)
    requires
        forall|input: Vec<u8>| keccak.requires((input,)),
    ensures
        exists|input: Vec<u8>, digest: [u8; 32]| {
            &&& input@ == rlp_create_spec(from.0@, message_nonce)
            &&& keccak.ensures((input,), digest)
            &&& res.0@ == digest@.subrange(12, 32)
        },
{
    compute_address_create(keccak, from, message_nonce)
}

} // verus!
