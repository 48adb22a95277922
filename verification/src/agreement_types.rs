//! Record types of the agreement store: status values, signatures, and the
//! agreement record with its well-formedness invariant.

use vstd::prelude::*;
use vstd::string::*;
use vstd::set_lib::lemma_len_subset;
use crate::principal::Principal;
use crate::hashing::{hex_of_bytes, sha256_of};

verus! {

/// Lifecycle state of an agreement.
///
/// The natural path is `Draft` (no signature yet), `Pending` (some but not
/// all parties signed), `Signed` (every party signed). `Cancelled` can only
/// be reached by an explicit status update from the creator.
#[derive(Clone, Copy, Debug, PartialEq, Eq, Structural)]
pub enum AgreementStatus {
    Draft,
    Pending,
    Signed,
    Cancelled,
}

/// The canonical textual form of a status value.
pub open spec fn status_chars(s: AgreementStatus) -> Seq<char> {
    match s {
        AgreementStatus::Draft => "Draft"@,
        AgreementStatus::Pending => "Pending"@,
        AgreementStatus::Signed => "Signed"@,
        AgreementStatus::Cancelled => "Cancelled"@,
    }
}

/// The status value a textual form parses to. An unrecognized string
/// degrades to `Draft`.
pub open spec fn status_of_chars(s: Seq<char>) -> AgreementStatus {
    if s == "Pending"@ {
        AgreementStatus::Pending
    } else if s == "Signed"@ {
        AgreementStatus::Signed
    } else if s == "Cancelled"@ {
        AgreementStatus::Cancelled
    } else {
        AgreementStatus::Draft
    }
}

impl AgreementStatus {
    /// Render the status as its canonical string.
    pub fn to_string(&self) -> (r: String)
        ensures
            r@ == status_chars(*self),
    {
        match self {
            AgreementStatus::Draft => String::from_str("Draft"),
            AgreementStatus::Pending => String::from_str("Pending"),
            AgreementStatus::Signed => String::from_str("Signed"),
            AgreementStatus::Cancelled => String::from_str("Cancelled"),
        }
    }

    /// Parse a status string; anything unrecognized degrades to `Draft`.
    pub fn from_string(s: &str) -> (r: Self)
        ensures
            r == status_of_chars(s@),
    {
        let owned = s.to_owned();
        if owned == String::from_str("Pending") {
            AgreementStatus::Pending
        } else if owned == String::from_str("Signed") {
            AgreementStatus::Signed
        } else if owned == String::from_str("Cancelled") {
            AgreementStatus::Cancelled
        } else {
            AgreementStatus::Draft
        }
    }
}

/// One party's signature marker on an agreement: a commitment hash derived
/// from the signer's identity, not a verifiable cryptographic signature.
#[derive(Debug, PartialEq, Eq)]
pub struct Signature {
    pub signer: Principal,
    pub signed_at: u64,
    pub signature_hash: String,
}

/// The mathematical content of a `Signature`.
#[verifier::ext_equal]
pub ghost struct SignatureView {
    pub signer: Seq<char>,
    pub signed_at: u64,
    pub signature_hash: Seq<char>,
}

impl View for Signature {
    type V = SignatureView;

    open spec fn view(&self) -> SignatureView {
        SignatureView {
            signer: self.signer@,
            signed_at: self.signed_at,
            signature_hash: self.signature_hash@,
        }
    }
}

impl Clone for Signature {
    fn clone(&self) -> (res: Self)
        ensures
            res == *self,
    {
        Signature {
            signer: self.signer.clone(),
            signed_at: self.signed_at,
            signature_hash: self.signature_hash.clone(),
        }
    }
}

/// The signature a signer with identity `signer` leaves at `now`: the
/// signature hash is the hex-encoded digest of the signer's own identity,
/// a commitment marker.
pub open spec fn signature_view(signer: Seq<char>, now: u64) -> SignatureView {
    SignatureView { signer, signed_at: now, signature_hash: hex_of_bytes(sha256_of(signer)) }
}

/// A multi-party document agreement. Identity, parties, creator, content
/// hash and template are fixed at creation; only the status, the signature
/// list and `updated_at` change afterwards.
#[derive(Debug, PartialEq, Eq)]
pub struct Agreement {
    pub id: String,
    pub template_type: String,
    pub title: String,
    pub content_hash: String,
    pub creator: Principal,
    pub parties: Vec<Principal>,
    pub status: AgreementStatus,
    pub signatures: Vec<Signature>,
    pub created_at: u64,
    pub updated_at: u64,
}

/// The mathematical content of an `Agreement`.
#[verifier::ext_equal]
pub ghost struct AgreementView {
    pub id: Seq<char>,
    pub template_type: Seq<char>,
    pub title: Seq<char>,
    pub content_hash: Seq<char>,
    pub creator: Seq<char>,
    pub parties: Seq<Seq<char>>,
    pub status: AgreementStatus,
    pub signatures: Seq<SignatureView>,
    pub created_at: u64,
    pub updated_at: u64,
}

/// The views of a sequence of signatures, in order.
pub open spec fn signature_views(s: Seq<Signature>) -> Seq<SignatureView> {
    s.map_values(|sig: Signature| sig@)
}

impl View for Agreement {
    type V = AgreementView;

    open spec fn view(&self) -> AgreementView {
        AgreementView {
            id: self.id@,
            template_type: self.template_type@,
            title: self.title@,
            content_hash: self.content_hash@,
            creator: self.creator@,
            parties: crate::principal::principal_ids(self.parties@),
            status: self.status,
            signatures: signature_views(self.signatures@),
            created_at: self.created_at,
            updated_at: self.updated_at,
        }
    }
}

/// The views of a sequence of agreements, in order.
pub open spec fn agreement_views(s: Seq<Agreement>) -> Seq<AgreementView> {
    s.map_values(|a: Agreement| a@)
}

impl AgreementView {
    /// Well-formedness: signatures never contain two entries with the same
    /// signer, and every signer is a member of `parties`.
    pub open spec fn wf(&self) -> bool {
        &&& forall|i: int, j: int|
            0 <= i < j < self.signatures.len() ==> self.signatures[i].signer
                != self.signatures[j].signer
        &&& forall|i: int|
            0 <= i < self.signatures.len() ==> self.parties.contains(
                #[trigger] self.signatures[i].signer,
            )
    }

    /// Whether the identity `id` has already signed this agreement.
    pub open spec fn has_signed(&self, id: Seq<char>) -> bool {
        exists|i: int| 0 <= i < self.signatures.len() && self.signatures[i].signer == id
    }

    /// The same agreement after `signer` signs at `now`: the signature is
    /// appended and the status recomputed — `Signed` once every party has
    /// signed, `Pending` otherwise.
    pub open spec fn with_signature(&self, signer: Seq<char>, now: u64) -> AgreementView {
        let sigs = self.signatures.push(signature_view(signer, now));
        AgreementView {
            signatures: sigs,
            status: if sigs.len() == self.parties.len() {
                AgreementStatus::Signed
            } else {
                AgreementStatus::Pending
            },
            updated_at: now,
            ..*self
        }
    }

    /// The same agreement after the creator forces the status `st` at `now`.
    pub open spec fn with_status(&self, st: AgreementStatus, now: u64) -> AgreementView {
        AgreementView { status: st, updated_at: now, ..*self }
    }
}

impl Agreement {
    /// Well-formedness of the record's mathematical content.
    pub open spec fn wf(&self) -> bool {
        self@.wf()
    }

    /// Whether `p` has already signed this agreement.
    pub fn has_signed(&self, p: &Principal) -> (r: bool)
        ensures
            r == self@.has_signed(p@),
    {
        let mut i: usize = 0;
        while i < self.signatures.len()
            invariant
                i <= self.signatures.len(),
                forall|j: int| 0 <= j < i ==> self.signatures@[j].signer@ != p@,
            decreases self.signatures.len() - i,
        {
            if self.signatures[i].signer.id == p.id {
                proof {
                    assert(self@.signatures[i as int].signer == p@);
                }
                return true;
            }
            i += 1;
        }
        proof {
            assert forall|j: int| 0 <= j < self@.signatures.len() implies self@.signatures[j].signer
                != p@ by {}
        }
        false
    }
}

/// Clone a vector of signatures, element for element.
pub fn clone_signatures(v: &Vec<Signature>) -> (r: Vec<Signature>)
    ensures
        r@ == v@,
{
    let mut out: Vec<Signature> = Vec::new();
    let mut i: usize = 0;
    while i < v.len()
        invariant
            i <= v.len(),
            out@ =~= v@.take(i as int),
        decreases v.len() - i,
    {
        out.push(v[i].clone());
        proof {
            assert(out@ =~= v@.take(i + 1 as int));
        }
        i += 1;
    }
    proof {
        assert(v@.take(v@.len() as int) =~= v@);
    }
    out
}

impl Clone for Agreement {
    fn clone(&self) -> (res: Self)
        ensures
            res@ == self@,
            res.wf() == self.wf(),
    {
        Agreement {
            id: self.id.clone(),
            template_type: self.template_type.clone(),
            title: self.title.clone(),
            content_hash: self.content_hash.clone(),
            creator: self.creator.clone(),
            parties: crate::principal::clone_principals(&self.parties),
            status: self.status,
            signatures: clone_signatures(&self.signatures),
            created_at: self.created_at,
            updated_at: self.updated_at,
        }
    }
}

/// A well-formed agreement never holds more signatures than it has
/// parties: the signers are distinct and each one is a party.
pub proof fn lemma_signature_bound(a: AgreementView)
    requires
        a.wf(),
    ensures
        a.signatures.len() <= a.parties.len(),
{
    let signer_ids = a.signatures.map_values(|s: SignatureView| s.signer);
    assert(signer_ids.no_duplicates());
    signer_ids.unique_seq_to_set();
    assert forall|x: Seq<char>| signer_ids.to_set().contains(x) implies a.parties.to_set().contains(
        x,
    ) by {
        let i = choose|i: int| 0 <= i < signer_ids.len() && signer_ids[i] == x;
        assert(a.signatures[i].signer == x);
        assert(a.parties.contains(x));
    }
    lemma_len_subset(signer_ids.to_set(), a.parties.to_set());
    a.parties.lemma_cardinality_of_set();
}

/// Per-user counts derived by scanning that user's agreement list.
#[derive(Clone, Copy, Debug, PartialEq, Eq, Structural)]
pub struct UserStats {
    pub total_agreements: u64,
    pub pending_signatures: u64,
    pub signed_agreements: u64,
}

/// Per-identity list of the agreement ids the identity participates in,
/// as creator or party, deduplicated.
#[derive(Debug, PartialEq, Eq)]
pub struct UserAgreementIndex {
    pub agreement_ids: Vec<String>,
}

impl View for UserAgreementIndex {
    type V = Seq<Seq<char>>;

    open spec fn view(&self) -> Seq<Seq<char>> {
        string_views(self.agreement_ids@)
    }
}

/// The views of a sequence of strings, in order.
pub open spec fn string_views(s: Seq<String>) -> Seq<Seq<char>> {
    s.map_values(|t: String| t@)
}

/// Whether `v` contains a string equal to `s`.
pub fn contains_string(v: &Vec<String>, s: &String) -> (r: bool)
    ensures
        r == string_views(v@).contains(s@),
{
    let mut i: usize = 0;
    while i < v.len()
        invariant
            i <= v.len(),
            forall|j: int| 0 <= j < i ==> v@[j]@ != s@,
        decreases v.len() - i,
    {
        if v[i] == *s {
            proof {
                assert(string_views(v@)[i as int] == s@);
            }
            return true;
        }
        i += 1;
    }
    proof {
        assert forall|j: int| 0 <= j < v@.len() implies string_views(v@)[j] != s@ by {}
    }
    false
}

/// Clone a vector of strings, element for element.
pub fn clone_strings(v: &Vec<String>) -> (r: Vec<String>)
    ensures
        r@ == v@,
{
    let mut out: Vec<String> = Vec::new();
    let mut i: usize = 0;
    while i < v.len()
        invariant
            i <= v.len(),
            out@ =~= v@.take(i as int),
        decreases v.len() - i,
    {
        out.push(v[i].clone());
        proof {
            assert(out@ =~= v@.take(i + 1 as int));
        }
        i += 1;
    }
    proof {
        assert(v@.take(v@.len() as int) =~= v@);
    }
    out
}

impl Clone for UserAgreementIndex {
    fn clone(&self) -> (res: Self)
        ensures
            res@ == self@,
            res.agreement_ids@ == self.agreement_ids@,
    {
        UserAgreementIndex { agreement_ids: clone_strings(&self.agreement_ids) }
    }
}

} // verus!
