use vstd::prelude::*;

use crate::encoding::{bytes_eq, hex_ascii, hex_encode_bytes, push_u16le, push_u64le, u16le, u64le};
use crate::errors::HTLCError;
use crate::hashing::{sha256, sha256_of};

verus! {

/// The 16-byte fixed domain tag that opens the canonical envelope: a 0xff
/// byte followed by the ASCII label `solana offchain`.
pub open spec fn signing_domain() -> Seq<u8> {
    seq![
        0xffu8, 0x73u8, 0x6fu8, 0x6cu8, 0x61u8, 0x6eu8, 0x61u8, 0x20u8, 0x6fu8, 0x66u8, 0x66u8,
        0x63u8, 0x68u8, 0x61u8, 0x69u8, 0x6eu8,
    ]
}

/// The 32-byte application tag: the ASCII label `Train` at the left, padded
/// to 32 bytes with zero bytes.
pub open spec fn application_domain() -> Seq<u8> {
    seq![0x54u8, 0x72u8, 0x61u8, 0x69u8, 0x6eu8] + Seq::new(27, |i: int| 0u8)
}

/// The bytes whose SHA-256 digest a delegated hashlock-binding is signed
/// over: the swap id, the hashlock, and the little-endian timelock.
pub open spec fn lock_digest_input(id: Seq<u8>, hashlock: Seq<u8>, timelock: u64) -> Seq<u8> {
    id + hashlock + u64le(timelock)
}

/// The digest committing to one exact `(id, hashlock, timelock)` triple.
pub open spec fn lock_commitment(id: Seq<u8>, hashlock: Seq<u8>, timelock: u64) -> Seq<u8> {
    sha256_of(lock_digest_input(id, hashlock, timelock))
}

/// The canonical envelope around a digest: domain tag, version byte 0,
/// application tag, format byte 0, signer count 1, the signer's 32-byte
/// identity, the 2-byte little-endian digest length, and the digest itself.
pub open spec fn raw_envelope(sender: Seq<u8>, digest: Seq<u8>) -> Seq<u8> {
    signing_domain() + seq![0u8] + application_domain() + seq![0u8] + seq![1u8] + sender + u16le(
        digest.len() as u16,
    ) + digest
}

/// The signed message bytes of a delegated hashlock-binding: the canonical
/// envelope over the commitment digest, hex-encoded in lower case.
pub open spec fn signed_message(
    sender: Seq<u8>,
    id: Seq<u8>,
    hashlock: Seq<u8>,
    timelock: u64,
) -> Seq<u8> {
    hex_ascii(raw_envelope(sender, lock_commitment(id, hashlock, timelock)))
}

/// Builds the signed message bytes for a delegated binding of `hashlock` and
/// `timelock` onto the record `id`, authorized by `sender`.
#[verifier::rlimit(50)]
pub fn build_signed_message(
    sender: &[u8; 32],
    id: &[u8; 32],
    hashlock: &[u8; 32],
    timelock: u64,
) -> (r: Vec<u8>)
    ensures
        r@ == signed_message(sender@, id@, hashlock@, timelock),
        r@.len() == 234,
{
    let mut input: Vec<u8> = Vec::new();
    input.extend_from_slice(id.as_slice());
    input.extend_from_slice(hashlock.as_slice());
    push_u64le(&mut input, timelock);
    proof {
        assert(input@ =~= lock_digest_input(id@, hashlock@, timelock));
    }
    let digest = sha256(input.as_slice());

    let mut raw: Vec<u8> = Vec::new();
    raw.push(0xff);
    raw.push(0x73);
    raw.push(0x6f);
    raw.push(0x6c);
    raw.push(0x61);
    raw.push(0x6e);
    raw.push(0x61);
    raw.push(0x20);
    raw.push(0x6f);
    raw.push(0x66);
    raw.push(0x66);
    raw.push(0x63);
    raw.push(0x68);
    raw.push(0x61);
    raw.push(0x69);
    raw.push(0x6e);
    proof {
        assert(raw@ =~= signing_domain());
    }
    raw.push(0x00);
    raw.push(0x54);
    raw.push(0x72);
    raw.push(0x61);
    raw.push(0x69);
    raw.push(0x6e);
    let mut zeros: Vec<u8> = Vec::new();
    let mut k: usize = 0;
    while k < 27
        invariant
            0 <= k <= 27,
            zeros@ == Seq::new(k as nat, |i: int| 0u8),
        decreases 27 - k,
    {
        zeros.push(0x00);
        proof {
            assert(zeros@ =~= Seq::new((k + 1) as nat, |i: int| 0u8));
        }
        k += 1;
    }
    raw.extend_from_slice(zeros.as_slice());
    proof {
        assert(raw@ =~= signing_domain() + seq![0u8] + application_domain());
    }
    let ghost head = raw@;
    raw.push(0x00);
    raw.push(0x01);
    raw.extend_from_slice(sender.as_slice());
    push_u16le(&mut raw, 32);
    raw.extend_from_slice(digest.as_slice());
    proof {
        assert(raw@ =~= head + seq![0u8] + seq![1u8] + sender@ + u16le(32) + digest@);
        assert(raw@ =~= raw_envelope(sender@, lock_commitment(id@, hashlock@, timelock)));
    }

    let msg = hex_encode_bytes(raw.as_slice());
    proof {
        assert(msg@ == signed_message(sender@, id@, hashlock@, timelock));
    }
    msg
}

/// The 32-byte identity of the ledger's ed25519 signature-verification
/// program, whose already-executed instruction the delegated path inspects.
pub open spec fn ed25519_program_id_bytes() -> Seq<u8> {
    seq![
        3u8, 125u8, 70u8, 214u8, 124u8, 147u8, 251u8, 190u8, 18u8, 249u8, 66u8, 143u8, 131u8,
        141u8, 64u8, 255u8, 5u8, 112u8, 116u8, 73u8, 39u8, 244u8, 138u8, 100u8, 252u8, 202u8,
        112u8, 68u8, 128u8, 0u8, 0u8, 0u8,
    ]
}

/// True exactly of the ed25519 verification program's identity.
pub fn is_ed25519_program_id(p: &[u8; 32]) -> (r: bool)
    ensures
        r <==> p@ == ed25519_program_id_bytes(),
{
    let mut expected: Vec<u8> = Vec::new();
    expected.push(3);
    expected.push(125);
    expected.push(70);
    expected.push(214);
    expected.push(124);
    expected.push(147);
    expected.push(251);
    expected.push(190);
    expected.push(18);
    expected.push(249);
    expected.push(66);
    expected.push(143);
    expected.push(131);
    expected.push(141);
    expected.push(64);
    expected.push(255);
    expected.push(5);
    expected.push(112);
    expected.push(116);
    expected.push(73);
    expected.push(39);
    expected.push(244);
    expected.push(138);
    expected.push(100);
    expected.push(252);
    expected.push(202);
    expected.push(112);
    expected.push(68);
    expected.push(128);
    expected.push(0);
    expected.push(0);
    expected.push(0);
    proof {
        assert(expected@ =~= ed25519_program_id_bytes());
    }
    bytes_eq(p.as_slice(), expected.as_slice())
}

/// The full payload the ed25519 verification program expects for a single
/// self-referencing signature check: signature count 1, a zero padding byte,
/// the little-endian offsets of the key (16), signature (48) and message
/// (112), the message length, the sentinel instruction index 0xffff three
/// times, then the key, the signature, and the message.
pub open spec fn ed25519_ix_data(pubkey: Seq<u8>, msg: Seq<u8>, sig: Seq<u8>) -> Seq<u8> {
    seq![1u8, 0u8] + u16le(48) + u16le(0xffff) + u16le(16) + u16le(0xffff) + u16le(112) + u16le(
        msg.len() as u16,
    ) + u16le(0xffff) + pubkey + sig + msg
}

/// Builds the exact payload the verification program would have carried for
/// this key, message, and signature.
pub fn build_ed25519_ix_data(pubkey: &[u8], msg: &[u8], sig: &[u8]) -> (r: Vec<u8>)
    requires
        msg@.len() <= 0xffff,
    ensures
        r@ == ed25519_ix_data(pubkey@, msg@, sig@),
{
    let mut out: Vec<u8> = Vec::new();
    out.push(1);
    out.push(0);
    push_u16le(&mut out, 48);
    push_u16le(&mut out, 0xffff);
    push_u16le(&mut out, 16);
    push_u16le(&mut out, 0xffff);
    push_u16le(&mut out, 112);
    push_u16le(&mut out, msg.len() as u16);
    push_u16le(&mut out, 0xffff);
    out.extend_from_slice(pubkey);
    out.extend_from_slice(sig);
    out.extend_from_slice(msg);
    proof {
        assert(out@ =~= ed25519_ix_data(pubkey@, msg@, sig@));
    }
    out
}

/// Checks a serialized ed25519-verification payload against the expected
/// key, message, and signature. Succeeds exactly when the payload equals,
/// byte for byte, the canonical single-signature payload for them; any
/// deviation in any field fails uniformly.
pub fn check_ed25519_data(data: &[u8], pubkey: &[u8], msg: &[u8], sig: &[u8]) -> (r: Result<
    (),
    HTLCError,
>)
    requires
        pubkey@.len() == 32,
        sig@.len() == 64,
        msg@.len() <= 0xffff,
    ensures
        r is Ok <==> data@ == ed25519_ix_data(pubkey@, msg@, sig@),
        r is Err ==> r == Err::<(), HTLCError>(HTLCError::SignatureVerificationFailed),
{
    let expected = build_ed25519_ix_data(pubkey, msg, sig);
    if bytes_eq(data, expected.as_slice()) {
        Ok(())
    } else {
        Err(HTLCError::SignatureVerificationFailed)
    }
}

/// The already-executed signature-check instruction co-submitted with a
/// delegated hashlock-binding, as plain values: which program ran, how many
/// accounts it named, and its raw payload bytes.
pub struct SignatureInstruction {
    pub program_id: [u8; 32],
    pub num_accounts: usize,
    pub data: Vec<u8>,
}

/// A co-submitted instruction proves that `sender` signed the binding of
/// `(id, hashlock, timelock)` exactly when the ed25519 program ran with no
/// accounts and its payload carried the sender's key, the canonical signed
/// message, and the supplied signature.
pub open spec fn sig_ix_valid(
    ix: SignatureInstruction,
    sender: Seq<u8>,
    id: Seq<u8>,
    hashlock: Seq<u8>,
    timelock: u64,
    signature: Seq<u8>,
) -> bool {
    &&& ix.program_id@ == ed25519_program_id_bytes()
    &&& ix.num_accounts == 0
    &&& ix.data@ == ed25519_ix_data(
        sender,
        signed_message(sender, id, hashlock, timelock),
        signature,
    )
}

/// Decides `sig_ix_valid` for a concrete instruction.
pub fn verify_sig_instruction(
    ix: &SignatureInstruction,
    sender: &[u8; 32],
    id: &[u8; 32],
    hashlock: &[u8; 32],
    timelock: u64,
    signature: &[u8; 64],
) -> (r: bool)
    ensures
        r == sig_ix_valid(*ix, sender@, id@, hashlock@, timelock, signature@),
{
    if !is_ed25519_program_id(&ix.program_id) {
        return false;
    }
    if ix.num_accounts != 0 {
        return false;
    }
    let msg = build_signed_message(sender, id, hashlock, timelock);
    if ix.data.len() != 16 + 64 + 32 + msg.len() {
        proof {
            assert(ed25519_ix_data(sender@, msg@, signature@).len() == 112 + msg@.len());
        }
        return false;
    }
    match check_ed25519_data(ix.data.as_slice(), sender.as_slice(), msg.as_slice(),
        signature.as_slice()) {
        Ok(_) => true,
        Err(_) => false,
    }
}

} // verus!
