//! A validator set and its quorum rule.

use crate::hash::{append_bytes, hash_eq, hash_tagged, tagged_hash};
use crate::signature::{ed25519_accepts, ed25519_verify, SIGNATURE_LENGTH};
use vstd::bytes::{spec_u64_to_le_bytes, u64_to_le_bytes};
use vstd::prelude::*;

verus! {

/// One member of a validator set.
#[derive(Clone, Copy, Debug)]
pub struct ValidatorInfo {
    pub address: [u8; 32],
    pub public_key: [u8; 32],
    pub voting_power: u64,
}

/// A signature together with the identity of the validator it claims.
#[derive(Debug)]
pub struct SignatureEntry {
    pub signer: [u8; 32],
    pub signature: Vec<u8>,
}

/// Why a signature collection was not accepted.
#[derive(Clone, Copy, Debug, PartialEq, Eq)]
pub enum VerifyError {
    /// The valid signatures of known validators carry too little power.
    QuorumNotMet,
    /// Too little power, and some entry names an identity outside the set.
    UnknownSigner,
    /// Some signature is not the encoding of a signature at all.
    BadSignature,
}

/// Domain label under which a validator set is hashed.
pub open spec fn verifier_label() -> Seq<u8> {
    seq![
        65u8, 80u8, 84u8, 79u8, 83u8, 58u8, 58u8, 86u8, 97u8, 108u8, 105u8, 100u8, 97u8, 116u8,
        111u8, 114u8, 86u8, 101u8, 114u8, 105u8, 102u8, 105u8, 101u8, 114u8,
    ]
}

fn verifier_label_bytes() -> (out: Vec<u8>)
    ensures
        out@ == verifier_label(),
{
    let out: Vec<u8> = vec![
        65u8, 80u8, 84u8, 79u8, 83u8, 58u8, 58u8, 86u8, 97u8, 108u8, 105u8, 100u8, 97u8, 116u8,
        111u8, 114u8, 86u8, 101u8, 114u8, 105u8, 102u8, 105u8, 101u8, 114u8,
    ];
    assert(out@ =~= verifier_label());
    out
}

/// The sum of the voting power of `validators`.
pub open spec fn total_power(validators: Seq<ValidatorInfo>) -> nat
    decreases validators.len(),
{
    if validators.len() == 0 {
        0
    } else {
        total_power(validators.drop_last()) + validators.last().voting_power as nat
    }
}

/// The smallest power that exceeds two thirds of `total`.
pub open spec fn quorum_threshold(total: nat) -> nat {
    2 * total / 3 + 1
}

/// Whether `entry` is a valid signature of `message` by `validator`.
pub open spec fn entry_counts(validator: ValidatorInfo, message: Seq<u8>, entry: SignatureEntry) -> bool {
    &&& entry.signer@ == validator.address@
    &&& ed25519_accepts(validator.public_key@, message, entry.signature@)
}

/// Whether some entry is a valid signature of `message` by `validator`.
pub open spec fn has_signed(
    validator: ValidatorInfo,
    message: Seq<u8>,
    entries: Seq<SignatureEntry>,
) -> bool {
    exists|j: int| 0 <= j < entries.len() && entry_counts(validator, message, #[trigger] entries[j])
}

/// The power of the validators that validly signed `message`, each counted
/// once however many entries name it.
pub open spec fn signed_power(
    validators: Seq<ValidatorInfo>,
    message: Seq<u8>,
    entries: Seq<SignatureEntry>,
) -> nat
    decreases validators.len(),
{
    if validators.len() == 0 {
        0
    } else {
        signed_power(validators.drop_last(), message, entries) + if has_signed(
            validators.last(),
            message,
            entries,
        ) {
            validators.last().voting_power as nat
        } else {
            0
        }
    }
}

/// Whether `address` is the identity of one of `validators`.
pub open spec fn is_member(validators: Seq<ValidatorInfo>, address: Seq<u8>) -> bool {
    exists|i: int| 0 <= i < validators.len() && (#[trigger] validators[i]).address@ == address
}

/// Whether some entry's signature does not have the length of an encoding.
pub open spec fn has_malformed(entries: Seq<SignatureEntry>) -> bool {
    exists|j: int| 0 <= j < entries.len() && (#[trigger] entries[j]).signature@.len() != 64
}

/// Whether some entry names an identity outside `validators`.
pub open spec fn has_stranger(validators: Seq<ValidatorInfo>, entries: Seq<SignatureEntry>) -> bool {
    exists|j: int| 0 <= j < entries.len() && !is_member(validators, (#[trigger] entries[j]).signer@)
}

/// The outcome once the tallies are known: success exactly when the signed
/// power reaches the threshold for `total`, else the reason.
pub open spec fn tally_verdict(total: nat, signed: nat, stranger: bool) -> Result<(), VerifyError> {
    if signed >= quorum_threshold(total) {
        Ok(())
    } else if stranger {
        Err(VerifyError::UnknownSigner)
    } else {
        Err(VerifyError::QuorumNotMet)
    }
}

/// The outcome of checking `entries` as signatures of `message` by
/// `validators`. An undecodable signature fails the whole check at once; an
/// unknown signer or a rejected signature only adds no power.
pub open spec fn verdict(
    validators: Seq<ValidatorInfo>,
    message: Seq<u8>,
    entries: Seq<SignatureEntry>,
) -> Result<(), VerifyError> {
    if has_malformed(entries) {
        Err(VerifyError::BadSignature)
    } else {
        tally_verdict(
            total_power(validators),
            signed_power(validators, message, entries),
            has_stranger(validators, entries),
        )
    }
}

/// The bytes that stand for one validator: identity, key, power.
pub open spec fn validator_bytes(v: ValidatorInfo) -> Seq<u8> {
    v.address@ + v.public_key@ + spec_u64_to_le_bytes(v.voting_power)
}

/// The bytes of a list of validators, in order.
pub open spec fn validators_bytes(validators: Seq<ValidatorInfo>) -> Seq<u8>
    decreases validators.len(),
{
    if validators.len() == 0 {
        Seq::<u8>::empty()
    } else {
        validators_bytes(validators.drop_last()) + validator_bytes(validators.last())
    }
}

/// The canonical bytes of a validator set: its size, then its members.
pub open spec fn verifier_bytes(validators: Seq<ValidatorInfo>) -> Seq<u8> {
    spec_u64_to_le_bytes(validators.len() as u64) + validators_bytes(validators)
}

/// The hash that identifies a validator set.
pub open spec fn verifier_hash(validators: Seq<ValidatorInfo>) -> Seq<u8> {
    tagged_hash(verifier_label(), verifier_bytes(validators))
}

/// No two members share an identity.
pub open spec fn distinct_addresses(validators: Seq<ValidatorInfo>) -> bool {
    forall|i: int, j: int|
        0 <= i < j < validators.len() ==> (#[trigger] validators[i]).address@ != (
        #[trigger] validators[j]).address@
}

/// The least power that exceeds two thirds of `total`.
pub fn quorum_of(total: u128) -> (threshold: u128)
    ensures
        threshold == quorum_threshold(total as nat),
{
    let third_up: u128 = if total % 3 == 0 {
        total / 3
    } else {
        total / 3 + 1
    };
    total - third_up + 1
}

/// Decides from the tallies whether the quorum is met.
pub fn decide(total: u128, signed: u128, stranger: bool) -> (result: Result<(), VerifyError>)
    ensures
        result == tally_verdict(total as nat, signed as nat, stranger),
{
    if signed >= quorum_of(total) {
        Ok(())
    } else if stranger {
        Err(VerifyError::UnknownSigner)
    } else {
        Err(VerifyError::QuorumNotMet)
    }
}

/// Appends the canonical bytes of a validator list to `buf`.
pub fn append_verifier_bytes(buf: &mut Vec<u8>, validators: &Vec<ValidatorInfo>)
    ensures
        final(buf)@ == old(buf)@ + verifier_bytes(validators@),
{
    let ghost before = buf@;
    let n = validators.len();
    let count = u64_to_le_bytes(n as u64);
    append_bytes(buf, count.as_slice());
    let ghost start = buf@;
    let mut i: usize = 0;
    while i < n
        invariant
            i <= n,
            n == validators@.len(),
            buf@ == start + validators_bytes(validators@.take(i as int)),
        decreases n - i,
    {
        let v = &validators[i];
        let power = u64_to_le_bytes(v.voting_power);
        append_bytes(buf, v.address.as_slice());
        append_bytes(buf, v.public_key.as_slice());
        append_bytes(buf, power.as_slice());
        proof {
            let next = validators@.take(i + 1);
            assert(next.drop_last() =~= validators@.take(i as int));
            assert(next.last() == validators@[i as int]);
            assert(buf@ =~= start + validators_bytes(next));
        }
        i += 1;
    }
    proof {
        assert(validators@.take(n as int) =~= validators@);
        assert(buf@ =~= before + verifier_bytes(validators@));
    }
}

/// A validator set with pairwise distinct identities.
#[derive(Debug)]
pub struct ValidatorVerifier {
    validators: Vec<ValidatorInfo>,
}

impl View for ValidatorVerifier {
    type V = Seq<ValidatorInfo>;

    closed spec fn view(&self) -> Seq<ValidatorInfo> {
        self.validators@
    }
}

impl Clone for ValidatorVerifier {
    fn clone(&self) -> (out: Self)
        ensures
            out@ == self@,
    {
        let validators = self.to_vec();
        proof {
            use_type_invariant(self);
        }
        ValidatorVerifier { validators }
    }
}

impl ValidatorVerifier {
    #[verifier::type_invariant]
    spec fn unique(&self) -> bool {
        distinct_addresses(self.validators@)
    }


    /// Builds the set, unless two members share an identity.
    pub fn new(validators: Vec<ValidatorInfo>) -> (result: Option<ValidatorVerifier>)
        ensures
            result is Some <==> distinct_addresses(validators@),
            result matches Some(v) ==> v@ == validators@,
    {
        let n = validators.len();
        let mut j: usize = 0;
        while j < n
            invariant
                j <= n,
                n == validators@.len(),
                distinct_addresses(validators@.take(j as int)),
            decreases n - j,
        {
            match find_address(&validators, j, &validators[j].address) {
                Some(k) => {
                    assert(validators@[k as int].address@ == validators@[j as int].address@);
                    return None;
                },
                None => {},
            }
            j += 1;
        }
        assert(validators@.take(n as int) =~= validators@);
        Some(ValidatorVerifier { validators })
    }

    /// Number of members. Their identities are pairwise distinct.
    pub fn len(&self) -> (n: usize)
        ensures
            n == self@.len(),
            distinct_addresses(self@),
    {
        proof {
            use_type_invariant(self);
        }
        self.validators.len()
    }

    /// The member at position `i`.
    pub fn get(&self, i: usize) -> (v: Option<ValidatorInfo>)
        ensures
            v == if i < self@.len() { Some(self@[i as int]) } else { None },
    {
        if i < self.validators.len() {
            Some(self.validators[i])
        } else {
            None
        }
    }

    /// The members, in order.
    pub fn to_vec(&self) -> (out: Vec<ValidatorInfo>)
        ensures
            out@ == self@,
    {
        let mut out: Vec<ValidatorInfo> = Vec::new();
        let mut i: usize = 0;
        while i < self.validators.len()
            invariant
                i <= self.validators@.len(),
                out@ == self.validators@.take(i as int),
            decreases self.validators@.len() - i,
        {
            out.push(self.validators[i]);
            i += 1;
            assert(out@ =~= self.validators@.take(i as int));
        }
        assert(self.validators@.take(i as int) =~= self.validators@);
        out
    }

    /// The sum of all voting power.
    pub fn total_voting_power(&self) -> (total: u128)
        ensures
            total == total_power(self@),
            total <= self@.len() * 0xFFFF_FFFF_FFFF_FFFF,
    {
        let n = self.validators.len();
        let mut total: u128 = 0;
        let mut i: usize = 0;
        while i < n
            invariant
                i <= n,
                n == self.validators@.len(),
                total == total_power(self.validators@.take(i as int)),
                total <= i * 0xFFFF_FFFF_FFFF_FFFF,
            decreases n - i,
        {
            proof {
                let next = self.validators@.take(i + 1);
                assert(next.drop_last() =~= self.validators@.take(i as int));
                assert(next.last() == self.validators@[i as int]);
                lemma_power_bound(i as nat);
            }
            total = total + self.validators[i].voting_power as u128;
            i += 1;
        }
        assert(self.validators@.take(n as int) =~= self.validators@);
        total
    }

    /// The least signed power that is accepted.
    pub fn quorum_voting_power(&self) -> (threshold: u128)
        ensures
            threshold == quorum_threshold(total_power(self@)),
    {
        quorum_of(self.total_voting_power())
    }

    /// Checks that `signatures` hold valid signatures of `message` by
    /// members whose power reaches the quorum threshold.
    pub fn verify(&self, message: &[u8], signatures: &Vec<SignatureEntry>) -> (result: Result<
        (),
        VerifyError,
    >)
        ensures
            result == verdict(self@, message@, signatures@),
    {
        let m = signatures.len();
        let n = self.validators.len();
        let mut stranger = false;
        let mut j: usize = 0;
        while j < m
            invariant
                j <= m,
                m == signatures@.len(),
                n == self.validators@.len(),
                forall|k: int| 0 <= k < j ==> (#[trigger] signatures@[k]).signature@.len() == 64,
                stranger <==> exists|k: int|
                    0 <= k < j && !is_member(self.validators@, (#[trigger] signatures@[k]).signer@),
            decreases m - j,
        {
            let entry = &signatures[j];
            if entry.signature.len() != SIGNATURE_LENGTH {
                return Err(VerifyError::BadSignature);
            }
            let found = find_address(&self.validators, n, &entry.signer);
            assert(self.validators@.take(n as int) =~= self.validators@);
            if found.is_none() {
                stranger = true;
            }
            j += 1;
        }
        let total = self.total_voting_power();
        let signed = self.signed_voting_power(message, signatures);
        decide(total, signed, stranger)
    }

    /// The power of the members with a valid signature of `message` among
    /// `signatures`.
    pub fn signed_voting_power(&self, message: &[u8], signatures: &Vec<SignatureEntry>) -> (signed:
        u128)
        ensures
            signed == signed_power(self@, message@, signatures@),
    {
        let n = self.validators.len();
        let mut signed: u128 = 0;
        let mut i: usize = 0;
        while i < n
            invariant
                i <= n,
                n == self.validators@.len(),
                signed == signed_power(self.validators@.take(i as int), message@, signatures@),
                signed <= i * 0xFFFF_FFFF_FFFF_FFFF,
            decreases n - i,
        {
            proof {
                let next = self.validators@.take(i + 1);
                assert(next.drop_last() =~= self.validators@.take(i as int));
                assert(next.last() == self.validators@[i as int]);
                lemma_power_bound(i as nat);
            }
            if has_valid_signature(&self.validators[i], message, signatures) {
                signed = signed + self.validators[i].voting_power as u128;
            }
            i += 1;
        }
        assert(self.validators@.take(n as int) =~= self.validators@);
        signed
    }

    /// The content hash that identifies this validator set.
    pub fn hash(&self) -> (out: [u8; 32])
        ensures
            out@ == verifier_hash(self@),
    {
        let mut buf: Vec<u8> = Vec::new();
        append_verifier_bytes(&mut buf, &self.validators);
        assert(buf@ =~= verifier_bytes(self@));
        let label = verifier_label_bytes();
        hash_tagged(label.as_slice(), buf.as_slice())
    }
}

/// Sums of up to 2^64 powers fit in 128 bits with room to spare.
proof fn lemma_power_bound(count: nat)
    requires
        count <= 0xFFFF_FFFF_FFFF_FFFF,
    ensures
        count * 0xFFFF_FFFF_FFFF_FFFF + 0xFFFF_FFFF_FFFF_FFFF
            <= 0xFFFF_FFFF_FFFF_FFFF_FFFF_FFFF_FFFF_FFF0,
        count * 0xFFFF_FFFF_FFFF_FFFF + 0xFFFF_FFFF_FFFF_FFFF == (count + 1)
            * 0xFFFF_FFFF_FFFF_FFFF,
{
    assert(count * 0xFFFF_FFFF_FFFF_FFFF <= 0xFFFF_FFFF_FFFF_FFFF * 0xFFFF_FFFF_FFFF_FFFF)
        by (nonlinear_arith)
        requires
            count <= 0xFFFF_FFFF_FFFF_FFFF,
    ;
    assert(count * 0xFFFF_FFFF_FFFF_FFFF + 0xFFFF_FFFF_FFFF_FFFF == (count + 1)
        * 0xFFFF_FFFF_FFFF_FFFF) by (nonlinear_arith);
}

/// Position of the first of the first `upto` validators with identity
/// `address`.
pub fn find_address(validators: &Vec<ValidatorInfo>, upto: usize, address: &[u8; 32]) -> (found:
    Option<usize>)
    requires
        upto <= validators@.len(),
    ensures
        found matches Some(k) ==> k < upto && validators@[k as int].address@ == address@,
        found is None ==> !is_member(validators@.take(upto as int), address@),
{
    let mut k: usize = 0;
    while k < upto
        invariant
            k <= upto,
            upto <= validators@.len(),
            forall|i: int| 0 <= i < k ==> (#[trigger] validators@[i]).address@ != address@,
        decreases upto - k,
    {
        if hash_eq(&validators[k].address, address) {
            return Some(k);
        }
        k += 1;
    }
    assert forall|i: int| 0 <= i < validators@.take(upto as int).len() implies (
    #[trigger] validators@.take(upto as int)[i]).address@ != address@ by {
        assert(validators@.take(upto as int)[i] == validators@[i]);
    }
    None
}

/// Whether some entry is a valid signature of `message` by `validator`.
pub fn has_valid_signature(
    validator: &ValidatorInfo,
    message: &[u8],
    signatures: &Vec<SignatureEntry>,
) -> (signed: bool)
    ensures
        signed == has_signed(*validator, message@, signatures@),
{
    let mut j: usize = 0;
    while j < signatures.len()
        invariant
            j <= signatures@.len(),
            forall|k: int| 0 <= k < j ==> !entry_counts(*validator, message@, #[trigger] signatures@[k]),
        decreases signatures@.len() - j,
    {
        let entry = &signatures[j];
        if hash_eq(&entry.signer, &validator.address) && ed25519_verify(
            &validator.public_key,
            message,
            entry.signature.as_slice(),
        ) {
            assert(entry_counts(*validator, message@, signatures@[j as int]));
            return true;
        }
        j += 1;
    }
    false
}

} // verus!
