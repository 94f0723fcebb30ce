//! Reading the canonical bytes back: fixed-width fields and counted lists.

use crate::hash::append_bytes;
use crate::ledger::{
    optional_epoch_state_bytes, optional_hash_bytes, EpochState, LedgerInfo,
    LedgerInfoWithSignatures, TransactionInfo,
};
use crate::trusted_state::{EpochChangeProof, TrustedState};
use crate::merkle::{SparseMerkleProof, TransactionAccumulatorProof};
use crate::validator::{
    distinct_addresses, has_malformed, validator_bytes, validators_bytes, verifier_bytes,
    SignatureEntry, ValidatorInfo, ValidatorVerifier,
};
use vstd::bytes::{
    lemma_auto_spec_u64_to_from_le_bytes, spec_u64_from_le_bytes, spec_u64_to_le_bytes,
    u64_from_le_bytes, u64_to_le_bytes,
};
use vstd::prelude::*;
use vstd::slice::slice_subrange;

verus! {

/// The little-endian number in the eight bytes at `pos`.
pub open spec fn u64_at(bytes: Seq<u8>, pos: int) -> u64 {
    spec_u64_from_le_bytes(bytes.subrange(pos, pos + 8))
}

/// Reads the little-endian number in the eight bytes at `pos`, if they are
/// there.
pub fn read_u64(bytes: &[u8], pos: usize) -> (out: Option<u64>)
    ensures
        out is Some <==> pos + 8 <= bytes@.len(),
        out matches Some(v) ==> v == u64_at(bytes@, pos as int) && spec_u64_to_le_bytes(v)
            == bytes@.subrange(pos as int, pos + 8),
{
    if bytes.len() < 8 || pos > bytes.len() - 8 {
        return None;
    }
    let v = u64_from_le_bytes(slice_subrange(bytes, pos, pos + 8));
    proof {
        lemma_auto_spec_u64_to_from_le_bytes();
    }
    Some(v)
}

/// Reads the 32 bytes at `pos`, if they are there.
pub fn read_hash(bytes: &[u8], pos: usize) -> (out: Option<[u8; 32]>)
    ensures
        out is Some <==> pos + 32 <= bytes@.len(),
        out matches Some(h) ==> h@ == bytes@.subrange(pos as int, pos + 32),
{
    if bytes.len() < 32 || pos > bytes.len() - 32 {
        return None;
    }
    let len = bytes.len();
    let mut h = [0u8;32];
    let mut i: usize = 0;
    while i < 32
        invariant
            i <= 32,
            len == bytes@.len(),
            pos + 32 <= bytes@.len(),
            forall|j: int| 0 <= j < i ==> h@[j] == bytes@[pos + j],
        decreases 32 - i,
    {
        h[i] = bytes[pos + i];
        i += 1;
    }
    assert(h@ =~= bytes@.subrange(pos as int, pos + 32));
    Some(h)
}

/// The bytes of a list of hashes, in order, without a count.
pub open spec fn hashes_bytes(hashes: Seq<[u8; 32]>) -> Seq<u8>
    decreases hashes.len(),
{
    if hashes.len() == 0 {
        Seq::<u8>::empty()
    } else {
        hashes_bytes(hashes.drop_last()) + hashes.last()@
    }
}

/// The canonical bytes of a list of hashes: their count, then the hashes.
pub open spec fn hash_list_bytes(hashes: Seq<[u8; 32]>) -> Seq<u8> {
    spec_u64_to_le_bytes(hashes.len() as u64) + hashes_bytes(hashes)
}

/// Whether `bytes` hold a count followed by exactly that many hashes.
pub open spec fn is_hash_list(bytes: Seq<u8>) -> bool {
    bytes.len() >= 8 && bytes.len() - 8 == 32 * u64_at(bytes, 0)
}

/// Writes the canonical bytes of a list of hashes.
pub fn encode_hash_list(hashes: &Vec<[u8; 32]>) -> (out: Vec<u8>)
    ensures
        out@ == hash_list_bytes(hashes@),
{
    let n = hashes.len();
    let mut out = u64_to_le_bytes(n as u64);
    let ghost head = out@;
    let mut i: usize = 0;
    while i < n
        invariant
            i <= n,
            n == hashes@.len(),
            out@ == head + hashes_bytes(hashes@.take(i as int)),
        decreases n - i,
    {
        append_bytes(&mut out, hashes[i].as_slice());
        proof {
            let next = hashes@.take(i + 1);
            assert(next.drop_last() =~= hashes@.take(i as int));
            assert(next.last() == hashes@[i as int]);
            assert(out@ =~= head + hashes_bytes(next));
        }
        i += 1;
    }
    assert(hashes@.take(n as int) =~= hashes@);
    out
}

/// Reads a list of hashes from its canonical bytes. Succeeds exactly on a
/// count followed by that many hashes and nothing else.
pub fn decode_hash_list(bytes: &[u8]) -> (out: Option<Vec<[u8; 32]>>)
    ensures
        out is Some <==> is_hash_list(bytes@),
        out matches Some(hashes) ==> hash_list_bytes(hashes@) == bytes@,
{
    let count = match read_u64(bytes, 0) {
        None => {
            return None;
        },
        Some(c) => c,
    };
    let body = bytes.len() - 8;
    if body % 32 != 0 || (body / 32) as u64 != count {
        return None;
    }
    let n = body / 32;
    let len = bytes.len();
    let mut hashes: Vec<[u8; 32]> = Vec::new();
    let mut i: usize = 0;
    while i < n
        invariant
            i <= n,
            len == bytes@.len(),
            bytes@.len() == 8 + 32 * n,
            hashes@.len() == i,
            hashes_bytes(hashes@) == bytes@.subrange(8, 8 + 32 * i),
        decreases n - i,
    {
        let ghost before = hashes@;
        match read_hash(bytes, 8 + 32 * i) {
            None => {
                assert(false);
            },
            Some(h) => {
                hashes.push(h);
                proof {
                    assert(hashes@.drop_last() =~= before);
                    assert(hashes_bytes(hashes@) =~= bytes@.subrange(8, 8 + 32 * (i + 1)));
                }
            },
        }
        i += 1;
    }
    proof {
        assert(bytes@ =~= bytes@.subrange(0, 8) + bytes@.subrange(8, 8 + 32 * n));
    }
    Some(hashes)
}

impl SparseMerkleProof {
    /// Writes the proof as a counted list of siblings.
    pub fn to_bytes(&self) -> (out: Vec<u8>)
        ensures
            out@ == hash_list_bytes(self.siblings@),
    {
        encode_hash_list(&self.siblings)
    }

    /// Reads a proof from a counted list of siblings.
    pub fn from_bytes(bytes: &[u8]) -> (out: Option<SparseMerkleProof>)
        ensures
            out is Some <==> is_hash_list(bytes@),
            out matches Some(proof) ==> hash_list_bytes(proof.siblings@) == bytes@,
    {
        match decode_hash_list(bytes) {
            None => None,
            Some(siblings) => Some(SparseMerkleProof { siblings }),
        }
    }
}

impl TransactionAccumulatorProof {
    /// Writes the proof as a counted list of siblings.
    pub fn to_bytes(&self) -> (out: Vec<u8>)
        ensures
            out@ == hash_list_bytes(self.siblings@),
    {
        encode_hash_list(&self.siblings)
    }

    /// Reads a proof from a counted list of siblings.
    pub fn from_bytes(bytes: &[u8]) -> (out: Option<TransactionAccumulatorProof>)
        ensures
            out is Some <==> is_hash_list(bytes@),
            out matches Some(proof) ==> hash_list_bytes(proof.siblings@) == bytes@,
    {
        match decode_hash_list(bytes) {
            None => None,
            Some(siblings) => Some(TransactionAccumulatorProof { siblings }),
        }
    }
}

/// Whether `bytes` have the layout of a transaction record: with the
/// presence byte clear and no checkpoint, or set and a checkpoint.
pub open spec fn is_transaction_info(bytes: Seq<u8>) -> bool {
    ||| bytes.len() == 73 && bytes[32] == 0
    ||| bytes.len() == 105 && bytes[32] == 1
}

impl TransactionInfo {
    /// Reads a transaction record from its canonical bytes.
    pub fn from_bytes(bytes: &[u8]) -> (out: Option<TransactionInfo>)
        ensures
            out is Some <==> is_transaction_info(bytes@),
            out matches Some(info) ==> info.canonical_bytes() == bytes@,
    {
        let len = bytes.len();
        if len != 73 && len != 105 {
            return None;
        }
        let tag = bytes[32];
        if !(len == 73 && tag == 0 || len == 105 && tag == 1) {
            return None;
        }
        let rest: usize = if tag == 0 { 33 } else { 65 };
        let transaction_hash = read_hash(bytes, 0);
        let state_checkpoint_hash = if tag == 0 { None } else { read_hash(bytes, 33) };
        let event_root_hash = read_hash(bytes, rest);
        let gas_used = read_u64(bytes, rest + 32);
        match (transaction_hash, event_root_hash, gas_used) {
            (Some(transaction_hash), Some(event_root_hash), Some(gas_used)) => {
                let info = TransactionInfo {
                    transaction_hash,
                    state_checkpoint_hash,
                    event_root_hash,
                    gas_used,
                };
                proof {
                    assert(optional_hash_bytes(state_checkpoint_hash) =~= bytes@.subrange(
                        32,
                        rest as int,
                    ));
                    assert(info.canonical_bytes() =~= bytes@);
                }
                Some(info)
            },
            _ => {
                assert(false);
                None
            },
        }
    }
}

/// Where a counted list of validators that starts at `pos` ends, if the
/// bytes hold all of it.
pub open spec fn validators_end(bytes: Seq<u8>, pos: int) -> Option<int> {
    if 0 <= pos && pos + 8 <= bytes.len() && pos + 8 + 72 * u64_at(bytes, pos) <= bytes.len() {
        Some(pos + 8 + 72 * u64_at(bytes, pos))
    } else {
        None
    }
}

/// The identity of validator `i` in the counted list at `pos`.
pub open spec fn address_at(bytes: Seq<u8>, pos: int, i: int) -> Seq<u8> {
    bytes.subrange(pos + 8 + 72 * i, pos + 8 + 72 * i + 32)
}

/// Whether the validators in the counted list at `pos` have pairwise
/// distinct identities.
pub open spec fn distinct_at(bytes: Seq<u8>, pos: int) -> bool {
    forall|i: int, j: int|
        0 <= i < j < u64_at(bytes, pos) ==> #[trigger] address_at(bytes, pos, i)
            != #[trigger] address_at(bytes, pos, j)
}

/// Reads the counted list of validators at `pos`; returns it with the
/// position after it.
pub fn read_validators(bytes: &[u8], pos: usize) -> (out: Option<(Vec<ValidatorInfo>, usize)>)
    ensures
        out is Some <==> validators_end(bytes@, pos as int) is Some,
        out matches Some((validators, next)) ==> {
            &&& Some(next as int) == validators_end(bytes@, pos as int)
            &&& validators@.len() == u64_at(bytes@, pos as int)
            &&& verifier_bytes(validators@) == bytes@.subrange(pos as int, next as int)
            &&& forall|i: int|
                0 <= i < validators@.len() ==> (#[trigger] validators@[i]).address@ == address_at(
                    bytes@,
                    pos as int,
                    i,
                )
        },
{
    let count = match read_u64(bytes, pos) {
        None => {
            return None;
        },
        Some(c) => c,
    };
    let len = bytes.len();
    let room = (len - pos - 8) / 72;
    if count > room as u64 {
        return None;
    }
    let n = count as usize;
    let start = pos + 8;
    let mut validators: Vec<ValidatorInfo> = Vec::new();
    let mut i: usize = 0;
    while i < n
        invariant
            i <= n,
            len == bytes@.len(),
            start == pos + 8,
            start + 72 * n <= len,
            validators@.len() == i,
            validators_bytes(validators@) == bytes@.subrange(start as int, start + 72 * i),
            forall|k: int|
                0 <= k < i ==> (#[trigger] validators@[k]).address@ == address_at(
                    bytes@,
                    pos as int,
                    k,
                ),
        decreases n - i,
    {
        let ghost before = validators@;
        let at = start + 72 * i;
        match (read_hash(bytes, at), read_hash(bytes, at + 32), read_u64(bytes, at + 64)) {
            (Some(address), Some(public_key), Some(voting_power)) => {
                let v = ValidatorInfo { address, public_key, voting_power };
                validators.push(v);
                proof {
                    assert(validators@.drop_last() =~= before);
                    assert(validator_bytes(v) =~= bytes@.subrange(at as int, at + 72));
                    assert(validators_bytes(validators@) =~= bytes@.subrange(
                        start as int,
                        start + 72 * (i + 1),
                    ));
                }
            },
            _ => {
                assert(false);
            },
        }
        i += 1;
    }
    proof {
        assert(bytes@.subrange(pos as int, start + 72 * n) =~= bytes@.subrange(
            pos as int,
            start as int,
        ) + bytes@.subrange(start as int, start + 72 * n));
    }
    Some((validators, start + 72 * n))
}

/// Whether `bytes` are the canonical bytes of a validator set: a counted
/// list of validators with distinct identities, and nothing after it.
pub open spec fn is_verifier(bytes: Seq<u8>) -> bool {
    validators_end(bytes, 0) == Some(bytes.len() as int) && distinct_at(bytes, 0)
}

impl ValidatorVerifier {
    /// Writes the canonical bytes of the set, the ones its hash is taken of.
    pub fn to_bytes(&self) -> (out: Vec<u8>)
        ensures
            out@ == verifier_bytes(self@),
    {
        let mut out: Vec<u8> = Vec::new();
        crate::validator::append_verifier_bytes(&mut out, &self.to_vec());
        assert(out@ =~= verifier_bytes(self@));
        out
    }

    /// Reads a validator set from its canonical bytes.
    pub fn from_bytes(bytes: &[u8]) -> (out: Option<ValidatorVerifier>)
        ensures
            out is Some <==> is_verifier(bytes@),
            out matches Some(set) ==> verifier_bytes(set@) == bytes@,
    {
        match read_validators(bytes, 0) {
            None => None,
            Some((validators, next)) => {
                if next != bytes.len() {
                    return None;
                }
                assert(bytes@.subrange(0, next as int) =~= bytes@);
                proof {
                    lemma_distinct_at(bytes@, 0, validators@);
                }
                ValidatorVerifier::new(validators)
            },
        }
    }
}

/// A list read from the bytes has distinct identities exactly when the
/// identities in the bytes are distinct.
pub proof fn lemma_distinct_at(bytes: Seq<u8>, pos: int, validators: Seq<ValidatorInfo>)
    requires
        validators.len() == u64_at(bytes, pos),
        forall|i: int|
            0 <= i < validators.len() ==> (#[trigger] validators[i]).address@ == address_at(
                bytes,
                pos,
                i,
            ),
    ensures
        distinct_addresses(validators) <==> distinct_at(bytes, pos),
{
    if distinct_addresses(validators) {
        assert forall|i: int, j: int| 0 <= i < j < u64_at(bytes, pos) implies #[trigger] address_at(
            bytes,
            pos,
            i,
        ) != #[trigger] address_at(bytes, pos, j) by {
            assert(validators[i].address@ != validators[j].address@);
        }
    }
    if distinct_at(bytes, pos) {
        assert forall|i: int, j: int| 0 <= i < j < validators.len() implies (
        #[trigger] validators[i]).address@ != (#[trigger] validators[j]).address@ by {
            assert(address_at(bytes, pos, i) != address_at(bytes, pos, j));
        }
    }
}

/// Where an epoch state that starts at `pos` ends: an epoch number, then a
/// counted list of validators with distinct identities.
pub open spec fn epoch_state_end(bytes: Seq<u8>, pos: int) -> Option<int> {
    if 0 <= pos && pos + 8 <= bytes.len() && distinct_at(bytes, pos + 8) {
        validators_end(bytes, pos + 8)
    } else {
        None
    }
}

/// Reads the epoch state at `pos`; returns it with the position after it.
pub fn read_epoch_state(bytes: &[u8], pos: usize) -> (out: Option<(EpochState, usize)>)
    ensures
        out is Some <==> epoch_state_end(bytes@, pos as int) is Some,
        out matches Some((state, next)) ==> {
            &&& Some(next as int) == epoch_state_end(bytes@, pos as int)
            &&& state.canonical_bytes() == bytes@.subrange(pos as int, next as int)
        },
{
    let epoch = match read_u64(bytes, pos) {
        None => {
            return None;
        },
        Some(e) => e,
    };
    let len = bytes.len();
    match read_validators(bytes, pos + 8) {
        None => None,
        Some((validators, next)) => {
            proof {
                lemma_distinct_at(bytes@, pos + 8, validators@);
            }
            match ValidatorVerifier::new(validators) {
                None => None,
                Some(verifier) => {
                    let state = EpochState { epoch, verifier };
                    assert(state.canonical_bytes() =~= bytes@.subrange(pos as int, next as int));
                    Some((state, next))
                },
            }
        },
    }
}

/// Where a ledger record that starts at `pos` ends: five fixed fields, a
/// presence byte, and the next epoch state if the byte is set.
pub open spec fn ledger_info_end(bytes: Seq<u8>, pos: int) -> Option<int> {
    if 0 <= pos && pos + 89 <= bytes.len() {
        if bytes[pos + 88] == 0 {
            Some(pos + 89)
        } else if bytes[pos + 88] == 1 {
            epoch_state_end(bytes, pos + 89)
        } else {
            None
        }
    } else {
        None
    }
}

/// Reads the ledger record at `pos`; returns it with the position after it.
pub fn read_ledger_info(bytes: &[u8], pos: usize) -> (out: Option<(LedgerInfo, usize)>)
    ensures
        out is Some <==> ledger_info_end(bytes@, pos as int) is Some,
        out matches Some((info, next)) ==> {
            &&& Some(next as int) == ledger_info_end(bytes@, pos as int)
            &&& info.canonical_bytes() == bytes@.subrange(pos as int, next as int)
        },
{
    let len = bytes.len();
    if len < 89 || pos > len - 89 {
        return None;
    }
    let tag = bytes[pos + 88];
    let (next_epoch_state, next) = if tag == 0 {
        (None, pos + 89)
    } else if tag == 1 {
        match read_epoch_state(bytes, pos + 89) {
            None => {
                return None;
            },
            Some((state, next)) => (Some(state), next),
        }
    } else {
        return None;
    };
    match (
        read_u64(bytes, pos),
        read_u64(bytes, pos + 8),
        read_hash(bytes, pos + 16),
        read_hash(bytes, pos + 48),
        read_u64(bytes, pos + 80),
    ) {
        (
            Some(epoch),
            Some(round),
            Some(block_id),
            Some(transaction_accumulator_hash),
            Some(timestamp_usecs),
        ) => {
            let info = LedgerInfo {
                epoch,
                round,
                block_id,
                transaction_accumulator_hash,
                timestamp_usecs,
                next_epoch_state,
            };
            proof {
                assert(optional_epoch_state_bytes(info.next_epoch_state) =~= bytes@.subrange(
                    pos + 88,
                    next as int,
                ));
                assert(info.canonical_bytes() =~= bytes@.subrange(pos as int, next as int));
            }
            Some((info, next))
        },
        _ => {
            assert(false);
            None
        },
    }
}

/// The bytes of one signature entry: the signer, then the signature.
pub open spec fn entry_bytes(entry: SignatureEntry) -> Seq<u8> {
    entry.signer@ + entry.signature@
}

/// The bytes of a list of signature entries, in order, without a count.
pub open spec fn entries_bytes(entries: Seq<SignatureEntry>) -> Seq<u8>
    decreases entries.len(),
{
    if entries.len() == 0 {
        Seq::<u8>::empty()
    } else {
        entries_bytes(entries.drop_last()) + entry_bytes(entries.last())
    }
}

/// The bytes of a signature collection: the count, then the entries.
pub open spec fn signatures_bytes(entries: Seq<SignatureEntry>) -> Seq<u8> {
    spec_u64_to_le_bytes(entries.len() as u64) + entries_bytes(entries)
}

/// Where a counted list of signature entries that starts at `pos` ends, each
/// entry a 32-byte signer and a 64-byte signature.
pub open spec fn signatures_end(bytes: Seq<u8>, pos: int) -> Option<int> {
    if 0 <= pos && pos + 8 <= bytes.len() && pos + 8 + 96 * u64_at(bytes, pos) <= bytes.len() {
        Some(pos + 8 + 96 * u64_at(bytes, pos))
    } else {
        None
    }
}

/// Reads the counted list of signature entries at `pos`; returns it with
/// the position after it.
pub fn read_signatures(bytes: &[u8], pos: usize) -> (out: Option<(Vec<SignatureEntry>, usize)>)
    ensures
        out is Some <==> signatures_end(bytes@, pos as int) is Some,
        out matches Some((entries, next)) ==> {
            &&& Some(next as int) == signatures_end(bytes@, pos as int)
            &&& signatures_bytes(entries@) == bytes@.subrange(pos as int, next as int)
            &&& forall|i: int|
                0 <= i < entries@.len() ==> (#[trigger] entries@[i]).signature@.len() == 64
        },
{
    let count = match read_u64(bytes, pos) {
        None => {
            return None;
        },
        Some(c) => c,
    };
    let len = bytes.len();
    let room = (len - pos - 8) / 96;
    if count > room as u64 {
        return None;
    }
    let n = count as usize;
    let start = pos + 8;
    let mut entries: Vec<SignatureEntry> = Vec::new();
    let mut i: usize = 0;
    while i < n
        invariant
            i <= n,
            len == bytes@.len(),
            start == pos + 8,
            start + 96 * n <= len,
            entries@.len() == i,
            entries_bytes(entries@) == bytes@.subrange(start as int, start + 96 * i),
            forall|k: int| 0 <= k < i ==> (#[trigger] entries@[k]).signature@.len() == 64,
        decreases n - i,
    {
        let ghost before = entries@;
        let at = start + 96 * i;
        match read_hash(bytes, at) {
            Some(signer) => {
                let mut signature: Vec<u8> = Vec::new();
                append_bytes(&mut signature, slice_subrange(bytes, at + 32, at + 96));
                let entry = SignatureEntry { signer, signature };
                proof {
                    assert(entry_bytes(entry) =~= bytes@.subrange(at as int, at + 96));
                }
                entries.push(entry);
                proof {
                    assert(entries@.drop_last() =~= before);
                    assert(entries_bytes(entries@) =~= bytes@.subrange(
                        start as int,
                        start + 96 * (i + 1),
                    ));
                }
            },
            None => {
                assert(false);
            },
        }
        i += 1;
    }
    proof {
        assert(bytes@.subrange(pos as int, start + 96 * n) =~= bytes@.subrange(
            pos as int,
            start as int,
        ) + bytes@.subrange(start as int, start + 96 * n));
    }
    Some((entries, start + 96 * n))
}

impl LedgerInfoWithSignatures {
    /// The bytes of a signed record: the record, then its signatures.
    pub open spec fn wire_bytes(&self) -> Seq<u8> {
        self.ledger_info.canonical_bytes() + signatures_bytes(self.signatures@)
    }

    /// Reads a signed record that takes up all of `bytes`.
    pub fn from_bytes(bytes: &[u8]) -> (out: Option<LedgerInfoWithSignatures>)
        ensures
            out is Some <==> record_end(bytes@, 0) == Some(bytes@.len() as int),
            out matches Some(record) ==> record.wire_bytes() == bytes@,
    {
        match read_record(bytes, 0) {
            None => None,
            Some((record, next)) => {
                if next != bytes.len() {
                    return None;
                }
                assert(bytes@.subrange(0, next as int) =~= bytes@);
                Some(record)
            },
        }
    }
}

/// Where a signed record that starts at `pos` ends.
pub open spec fn record_end(bytes: Seq<u8>, pos: int) -> Option<int> {
    match ledger_info_end(bytes, pos) {
        Some(mid) => signatures_end(bytes, mid),
        None => None,
    }
}

/// Reads the signed record at `pos`; returns it with the position after it.
pub fn read_record(bytes: &[u8], pos: usize) -> (out: Option<(LedgerInfoWithSignatures, usize)>)
    ensures
        out is Some <==> record_end(bytes@, pos as int) is Some,
        out matches Some((record, next)) ==> {
            &&& Some(next as int) == record_end(bytes@, pos as int)
            &&& pos < next
            &&& record.wire_bytes() == bytes@.subrange(pos as int, next as int)
        },
{
    let (ledger_info, mid) = match read_ledger_info(bytes, pos) {
        None => {
            return None;
        },
        Some(r) => r,
    };
    let (signatures, next) = match read_signatures(bytes, mid) {
        None => {
            return None;
        },
        Some(r) => r,
    };
    let record = LedgerInfoWithSignatures { ledger_info, signatures };
    proof {
        assert(bytes@.subrange(pos as int, next as int) =~= bytes@.subrange(
            pos as int,
            mid as int,
        ) + bytes@.subrange(mid as int, next as int));
    }
    Some((record, next))
}

/// The bytes of a list of signed records, in order, without a count.
pub open spec fn records_bytes(records: Seq<LedgerInfoWithSignatures>) -> Seq<u8>
    decreases records.len(),
{
    if records.len() == 0 {
        Seq::<u8>::empty()
    } else {
        records_bytes(records.drop_last()) + records.last().wire_bytes()
    }
}

/// Where `count` signed records that start at `pos` end.
pub open spec fn records_end(bytes: Seq<u8>, pos: int, count: nat) -> Option<int>
    decreases count,
{
    if count == 0 {
        Some(pos)
    } else {
        match record_end(bytes, pos) {
            Some(next) => records_end(bytes, next, (count - 1) as nat),
            None => None,
        }
    }
}

/// Whether `bytes` are a count followed by exactly that many signed records.
pub open spec fn is_epoch_change_proof(bytes: Seq<u8>) -> bool {
    bytes.len() >= 8 && records_end(bytes, 8, u64_at(bytes, 0) as nat) == Some(bytes.len() as int)
}

impl EpochChangeProof {
    /// The bytes of the proof: the count of its records, then the records.
    pub open spec fn wire_bytes(&self) -> Seq<u8> {
        spec_u64_to_le_bytes(self.ledger_info_with_sigs@.len() as u64) + records_bytes(
            self.ledger_info_with_sigs@,
        )
    }

    /// Reads an epoch change proof that takes up all of `bytes`.
    pub fn from_bytes(bytes: &[u8]) -> (out: Option<EpochChangeProof>)
        ensures
            out is Some <==> is_epoch_change_proof(bytes@),
            out matches Some(proof) ==> proof.wire_bytes() == bytes@,
    {
        let count = match read_u64(bytes, 0) {
            None => {
                return None;
            },
            Some(c) => c,
        };
        let len = bytes.len();
        let mut records: Vec<LedgerInfoWithSignatures> = Vec::new();
        let mut pos: usize = 8;
        let mut i: u64 = 0;
        while i < count
            invariant
                i <= count,
                len == bytes@.len(),
                8 <= pos <= len,
                count == u64_at(bytes@, 0),
                records@.len() == i,
                records_bytes(records@) == bytes@.subrange(8, pos as int),
                records_end(bytes@, pos as int, (count - i) as nat) == records_end(
                    bytes@,
                    8,
                    count as nat,
                ),
            decreases count - i,
        {
            let ghost before = records@;
            match read_record(bytes, pos) {
                None => {
                    return None;
                },
                Some((record, next)) => {
                    records.push(record);
                    proof {
                        assert(records@.drop_last() =~= before);
                        assert(records_bytes(records@) =~= bytes@.subrange(8, next as int));
                    }
                    pos = next;
                },
            }
            i += 1;
        }
        if pos != len {
            return None;
        }
        proof {
            assert(bytes@ =~= bytes@.subrange(0, 8) + bytes@.subrange(8, pos as int));
        }
        Some(EpochChangeProof { ledger_info_with_sigs: records })
    }
}

/// Whether `bytes` are an epoch state and nothing more.
pub open spec fn is_trusted_state(bytes: Seq<u8>) -> bool {
    epoch_state_end(bytes, 0) == Some(bytes.len() as int)
}

impl TrustedState {
    /// Reads a trusted state from the canonical bytes of its epoch state.
    pub fn from_bytes(bytes: &[u8]) -> (out: Option<TrustedState>)
        ensures
            out is Some <==> is_trusted_state(bytes@),
            out matches Some(state) ==> state.epoch_state.canonical_bytes() == bytes@,
    {
        match read_epoch_state(bytes, 0) {
            None => None,
            Some((epoch_state, next)) => {
                if next != bytes.len() {
                    return None;
                }
                assert(bytes@.subrange(0, next as int) =~= bytes@);
                Some(TrustedState { epoch_state })
            },
        }
    }
}

/// Appends the bytes of a signed record to `buf`.
pub fn append_record(buf: &mut Vec<u8>, record: &LedgerInfoWithSignatures)
    ensures
        final(buf)@ == old(buf)@ + record.wire_bytes(),
{
    let ghost before = buf@;
    let info = record.ledger_info.to_bytes();
    append_bytes(buf, info.as_slice());
    let n = record.signatures.len();
    let count = u64_to_le_bytes(n as u64);
    append_bytes(buf, count.as_slice());
    let ghost start = buf@;
    let mut i: usize = 0;
    while i < n
        invariant
            i <= n,
            n == record.signatures@.len(),
            buf@ == start + entries_bytes(record.signatures@.take(i as int)),
        decreases n - i,
    {
        let entry = &record.signatures[i];
        append_bytes(buf, entry.signer.as_slice());
        append_bytes(buf, entry.signature.as_slice());
        proof {
            let next = record.signatures@.take(i + 1);
            assert(next.drop_last() =~= record.signatures@.take(i as int));
            assert(next.last() == record.signatures@[i as int]);
            assert(buf@ =~= start + entries_bytes(next));
        }
        i += 1;
    }
    proof {
        assert(record.signatures@.take(n as int) =~= record.signatures@);
        assert(buf@ =~= before + record.wire_bytes());
    }
}

impl LedgerInfoWithSignatures {
    /// Writes the record, then its signatures.
    pub fn to_bytes(&self) -> (out: Vec<u8>)
        ensures
            out@ == self.wire_bytes(),
    {
        let mut out: Vec<u8> = Vec::new();
        append_record(&mut out, self);
        assert(out@ =~= self.wire_bytes());
        out
    }
}

impl EpochChangeProof {
    /// Writes the count of the records, then the records.
    pub fn to_bytes(&self) -> (out: Vec<u8>)
        ensures
            out@ == self.wire_bytes(),
    {
        let n = self.ledger_info_with_sigs.len();
        let mut out = u64_to_le_bytes(n as u64);
        let ghost head = out@;
        let mut i: usize = 0;
        while i < n
            invariant
                i <= n,
                n == self.ledger_info_with_sigs@.len(),
                out@ == head + records_bytes(self.ledger_info_with_sigs@.take(i as int)),
            decreases n - i,
        {
            append_record(&mut out, &self.ledger_info_with_sigs[i]);
            proof {
                let next = self.ledger_info_with_sigs@.take(i + 1);
                assert(next.drop_last() =~= self.ledger_info_with_sigs@.take(i as int));
                assert(next.last() == self.ledger_info_with_sigs@[i as int]);
                assert(out@ =~= head + records_bytes(next));
            }
            i += 1;
        }
        assert(self.ledger_info_with_sigs@.take(n as int) =~= self.ledger_info_with_sigs@);
        out
    }
}

impl TrustedState {
    /// Writes the canonical bytes of the epoch state.
    pub fn to_bytes(&self) -> (out: Vec<u8>)
        ensures
            out@ == self.epoch_state.canonical_bytes(),
    {
        let mut out = u64_to_le_bytes(self.epoch_state.epoch);
        crate::validator::append_verifier_bytes(&mut out, &self.epoch_state.verifier.to_vec());
        out
    }
}

/// The bytes of `n` hashes are `32 * n` long.
pub proof fn lemma_hashes_bytes_len(hashes: Seq<[u8; 32]>)
    ensures
        hashes_bytes(hashes).len() == 32 * hashes.len(),
    decreases hashes.len(),
{
    if hashes.len() > 0 {
        lemma_hashes_bytes_len(hashes.drop_last());
    }
}

/// The canonical bytes of a list of hashes decode: writing a list and
/// reading it back never fails.
pub proof fn lemma_hash_list_bytes_decode(hashes: Seq<[u8; 32]>)
    requires
        hashes.len() <= u64::MAX,
    ensures
        is_hash_list(hash_list_bytes(hashes)),
{
    let bytes = hash_list_bytes(hashes);
    lemma_hashes_bytes_len(hashes);
    lemma_auto_spec_u64_to_from_le_bytes();
    assert(bytes.subrange(0, 8) =~= spec_u64_to_le_bytes(hashes.len() as u64));
}

/// The canonical bytes of a transaction record decode.
pub proof fn lemma_transaction_info_bytes_decode(info: TransactionInfo)
    ensures
        is_transaction_info(info.canonical_bytes()),
{
    lemma_auto_spec_u64_to_from_le_bytes();
}

/// The bytes of `n` validators are `72 * n` long, and the identity of each
/// stands at the head of its record.
pub proof fn lemma_validators_bytes_layout(validators: Seq<ValidatorInfo>)
    ensures
        validators_bytes(validators).len() == 72 * validators.len(),
        forall|i: int|
            0 <= i < validators.len() ==> validators_bytes(validators).subrange(
                72 * i,
                72 * i + 32,
            ) == (#[trigger] validators[i]).address@,
    decreases validators.len(),
{
    lemma_auto_spec_u64_to_from_le_bytes();
    if validators.len() > 0 {
        let head = validators.drop_last();
        let last = validators.last();
        lemma_validators_bytes_layout(head);
        let bytes = validators_bytes(validators);
        assert(validator_bytes(last).len() == 72);
        assert forall|i: int| 0 <= i < validators.len() implies bytes.subrange(72 * i, 72 * i + 32)
            == (#[trigger] validators[i]).address@ by {
            if i < head.len() {
                assert(head[i] == validators[i]);
                assert(bytes.subrange(72 * i, 72 * i + 32) =~= validators_bytes(head).subrange(
                    72 * i,
                    72 * i + 32,
                ));
            } else {
                assert(bytes.subrange(72 * i, 72 * i + 32) =~= last.address@);
            }
        }
    }
}

/// A counted list of validators that stands at `pos` is read whole, and its
/// identities are as distinct in the bytes as in the list.
pub proof fn lemma_validators_embedded(bytes: Seq<u8>, pos: int, validators: Seq<ValidatorInfo>)
    requires
        0 <= pos,
        validators.len() <= u64::MAX,
        pos + verifier_bytes(validators).len() <= bytes.len(),
        bytes.subrange(pos, pos + verifier_bytes(validators).len()) == verifier_bytes(validators),
    ensures
        verifier_bytes(validators).len() == 8 + 72 * validators.len(),
        validators_end(bytes, pos) == Some(pos + verifier_bytes(validators).len()),
        distinct_addresses(validators) ==> distinct_at(bytes, pos),
{
    let whole = verifier_bytes(validators);
    let body = validators_bytes(validators);
    lemma_validators_bytes_layout(validators);
    lemma_auto_spec_u64_to_from_le_bytes();
    assert(bytes.subrange(pos, pos + 8) =~= whole.subrange(0, 8));
    assert(whole.subrange(0, 8) =~= spec_u64_to_le_bytes(validators.len() as u64));
    assert(u64_at(bytes, pos) == validators.len());
    if distinct_addresses(validators) {
        assert forall|i: int, j: int| 0 <= i < j < u64_at(bytes, pos) implies #[trigger] address_at(
            bytes,
            pos,
            i,
        ) != #[trigger] address_at(bytes, pos, j) by {
            assert(address_at(bytes, pos, i) =~= whole.subrange(8 + 72 * i, 8 + 72 * i + 32));
            assert(whole.subrange(8 + 72 * i, 8 + 72 * i + 32) =~= body.subrange(
                72 * i,
                72 * i + 32,
            ));
            assert(address_at(bytes, pos, j) =~= whole.subrange(8 + 72 * j, 8 + 72 * j + 32));
            assert(whole.subrange(8 + 72 * j, 8 + 72 * j + 32) =~= body.subrange(
                72 * j,
                72 * j + 32,
            ));
            assert(validators[i].address@ != validators[j].address@);
        }
    }
}

/// The canonical bytes of a validator set decode.
pub proof fn lemma_verifier_bytes_decode(validators: Seq<ValidatorInfo>)
    requires
        validators.len() <= u64::MAX,
        distinct_addresses(validators),
    ensures
        is_verifier(verifier_bytes(validators)),
{
    let bytes = verifier_bytes(validators);
    assert(bytes.subrange(0, bytes.len() as int) =~= bytes);
    lemma_validators_embedded(bytes, 0, validators);
}

/// Whether an epoch state can be written and read back: its validator set
/// has distinct identities and a count that fits the count field.
pub open spec fn epoch_state_fits(state: EpochState) -> bool {
    state.verifier@.len() <= u64::MAX && distinct_addresses(state.verifier@)
}

/// An epoch state that stands at `pos` is read whole.
pub proof fn lemma_epoch_state_embedded(bytes: Seq<u8>, pos: int, state: EpochState)
    requires
        0 <= pos,
        epoch_state_fits(state),
        pos + state.canonical_bytes().len() <= bytes.len(),
        bytes.subrange(pos, pos + state.canonical_bytes().len()) == state.canonical_bytes(),
    ensures
        epoch_state_end(bytes, pos) == Some(pos + state.canonical_bytes().len()),
{
    let whole = state.canonical_bytes();
    let set = verifier_bytes(state.verifier@);
    lemma_auto_spec_u64_to_from_le_bytes();
    assert(bytes.subrange(pos + 8, pos + 8 + set.len()) =~= whole.subrange(8, whole.len() as int));
    assert(whole.subrange(8, whole.len() as int) =~= set);
    lemma_validators_embedded(bytes, pos + 8, state.verifier@);
}

/// The canonical bytes of a trusted state decode.
pub proof fn lemma_trusted_state_bytes_decode(state: TrustedState)
    requires
        epoch_state_fits(state.epoch_state),
    ensures
        is_trusted_state(state.epoch_state.canonical_bytes()),
{
    let bytes = state.epoch_state.canonical_bytes();
    assert(bytes.subrange(0, bytes.len() as int) =~= bytes);
    lemma_epoch_state_embedded(bytes, 0, state.epoch_state);
}

/// Whether a signed record can be written and read back: the validator set
/// it installs, if any, fits, and every signature has the length of one.
pub open spec fn record_fits(record: LedgerInfoWithSignatures) -> bool {
    &&& record.ledger_info.next_epoch_state matches Some(state) ==> epoch_state_fits(state)
    &&& record.signatures@.len() <= u64::MAX
    &&& !has_malformed(record.signatures@)
}

/// A ledger record that stands at `pos` is read whole.
pub proof fn lemma_ledger_info_embedded(bytes: Seq<u8>, pos: int, info: LedgerInfo)
    requires
        0 <= pos,
        info.next_epoch_state matches Some(state) ==> epoch_state_fits(state),
        pos + info.canonical_bytes().len() <= bytes.len(),
        bytes.subrange(pos, pos + info.canonical_bytes().len()) == info.canonical_bytes(),
    ensures
        ledger_info_end(bytes, pos) == Some(pos + info.canonical_bytes().len()),
{
    let whole = info.canonical_bytes();
    let tail = optional_epoch_state_bytes(info.next_epoch_state);
    lemma_auto_spec_u64_to_from_le_bytes();
    assert(whole.len() == 88 + tail.len());
    assert(bytes[pos + 88] == bytes.subrange(pos, pos + whole.len())[88]);
    assert(whole[88] == tail[0]);
    match info.next_epoch_state {
        None => {},
        Some(state) => {
            let inner = state.canonical_bytes();
            assert(bytes.subrange(pos + 89, pos + 89 + inner.len()) =~= whole.subrange(
                89,
                whole.len() as int,
            ));
            assert(whole.subrange(89, whole.len() as int) =~= inner);
            lemma_epoch_state_embedded(bytes, pos + 89, state);
        },
    }
}

/// The bytes of `m` entries with 64-byte signatures are `96 * m` long.
pub proof fn lemma_entries_bytes_len(entries: Seq<SignatureEntry>)
    requires
        !has_malformed(entries),
    ensures
        entries_bytes(entries).len() == 96 * entries.len(),
    decreases entries.len(),
{
    if entries.len() > 0 {
        let head = entries.drop_last();
        assert(entries.last().signature@.len() == 64);
        assert forall|j: int| 0 <= j < head.len() implies (#[trigger] head[j]).signature@.len()
            == 64 by {
            assert(head[j] == entries[j]);
        }
        lemma_entries_bytes_len(head);
    }
}

/// A signed record that stands at `pos` is read whole.
pub proof fn lemma_record_embedded(bytes: Seq<u8>, pos: int, record: LedgerInfoWithSignatures)
    requires
        0 <= pos,
        record_fits(record),
        pos + record.wire_bytes().len() <= bytes.len(),
        bytes.subrange(pos, pos + record.wire_bytes().len()) == record.wire_bytes(),
    ensures
        record_end(bytes, pos) == Some(pos + record.wire_bytes().len()),
{
    let whole = record.wire_bytes();
    let info = record.ledger_info.canonical_bytes();
    let sigs = signatures_bytes(record.signatures@);
    let mid = pos + info.len();
    lemma_auto_spec_u64_to_from_le_bytes();
    lemma_entries_bytes_len(record.signatures@);
    assert(bytes.subrange(pos, mid) =~= whole.subrange(0, info.len() as int));
    assert(whole.subrange(0, info.len() as int) =~= info);
    lemma_ledger_info_embedded(bytes, pos, record.ledger_info);
    assert(bytes.subrange(mid, mid + 8) =~= whole.subrange(info.len() as int, info.len() as int + 8));
    assert(whole.subrange(info.len() as int, info.len() as int + 8) =~= spec_u64_to_le_bytes(
        record.signatures@.len() as u64,
    ));
    assert(u64_at(bytes, mid) == record.signatures@.len());
}

/// The bytes of a list of records are those of the first, then those of
/// the rest.
pub proof fn lemma_records_bytes_front(records: Seq<LedgerInfoWithSignatures>)
    requires
        records.len() > 0,
    ensures
        records_bytes(records) == records[0].wire_bytes() + records_bytes(records.drop_first()),
    decreases records.len(),
{
    if records.len() == 1 {
        assert(records.drop_last().len() == 0);
        assert(records.drop_first().len() == 0);
        assert(records_bytes(records.drop_last()) =~= Seq::<u8>::empty());
        assert(records_bytes(records.drop_first()) =~= Seq::<u8>::empty());
        assert(records.last() == records[0]);
        assert(records_bytes(records) =~= records[0].wire_bytes());
        assert(records[0].wire_bytes() + records_bytes(records.drop_first())
            =~= records[0].wire_bytes());
    } else {
        let head = records.drop_last();
        lemma_records_bytes_front(head);
        assert(head[0] == records[0]);
        assert(head.drop_first() =~= records.drop_first().drop_last());
        assert(records.drop_first().last() == records.last());
        assert(records_bytes(records) =~= records[0].wire_bytes() + records_bytes(
            records.drop_first(),
        ));
    }
}

/// A list of signed records that stands at `pos` is read whole.
pub proof fn lemma_records_embedded(
    bytes: Seq<u8>,
    pos: int,
    records: Seq<LedgerInfoWithSignatures>,
)
    requires
        0 <= pos,
        forall|i: int| 0 <= i < records.len() ==> record_fits(#[trigger] records[i]),
        pos + records_bytes(records).len() <= bytes.len(),
        bytes.subrange(pos, pos + records_bytes(records).len()) == records_bytes(records),
    ensures
        records_end(bytes, pos, records.len()) == Some(pos + records_bytes(records).len()),
    decreases records.len(),
{
    if records.len() > 0 {
        let whole = records_bytes(records);
        let first = records[0].wire_bytes();
        let rest = records.drop_first();
        lemma_records_bytes_front(records);
        let mid = pos + first.len();
        assert(bytes.subrange(pos, mid) =~= whole.subrange(0, first.len() as int));
        assert(whole.subrange(0, first.len() as int) =~= first);
        lemma_record_embedded(bytes, pos, records[0]);
        assert(bytes.subrange(mid, mid + records_bytes(rest).len()) =~= whole.subrange(
            first.len() as int,
            whole.len() as int,
        ));
        assert(whole.subrange(first.len() as int, whole.len() as int) =~= records_bytes(rest));
        assert forall|i: int| 0 <= i < rest.len() implies record_fits(#[trigger] rest[i]) by {
            assert(rest[i] == records[i + 1]);
        }
        lemma_records_embedded(bytes, mid, rest);
    }
}

/// The bytes of a signed record decode.
pub proof fn lemma_record_bytes_decode(record: LedgerInfoWithSignatures)
    requires
        record_fits(record),
    ensures
        record_end(record.wire_bytes(), 0) == Some(record.wire_bytes().len() as int),
{
    let bytes = record.wire_bytes();
    assert(bytes.subrange(0, bytes.len() as int) =~= bytes);
    lemma_record_embedded(bytes, 0, record);
}

/// The bytes of an epoch change proof decode.
pub proof fn lemma_epoch_change_proof_bytes_decode(proof: EpochChangeProof)
    requires
        proof.ledger_info_with_sigs@.len() <= u64::MAX,
        forall|i: int|
            0 <= i < proof.ledger_info_with_sigs@.len() ==> record_fits(
                #[trigger] proof.ledger_info_with_sigs@[i],
            ),
    ensures
        is_epoch_change_proof(proof.wire_bytes()),
{
    let bytes = proof.wire_bytes();
    let records = proof.ledger_info_with_sigs@;
    lemma_auto_spec_u64_to_from_le_bytes();
    assert(bytes.subrange(0, 8) =~= spec_u64_to_le_bytes(records.len() as u64));
    assert(bytes.subrange(8, 8 + records_bytes(records).len() as int) =~= records_bytes(records));
    lemma_records_embedded(bytes, 8, records);
}

} // verus!
