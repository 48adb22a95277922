//! Record types of the proof vault: chain proofs, the metadata snapshot,
//! and the notarization proof record with its well-formedness invariant.

use vstd::prelude::*;
use crate::principal::{principal_ids, Principal};

verus! {

/// Evidence that a notarization was anchored on one external ledger.
/// `block_number` stays absent until the transaction is confirmed.
#[derive(Debug, PartialEq, Eq)]
pub struct ChainProof {
    pub chain_name: String,
    pub tx_hash: String,
    pub block_number: Option<u64>,
    pub timestamp: u64,
}

/// The mathematical content of a `ChainProof`.
#[verifier::ext_equal]
pub ghost struct ChainProofView {
    pub chain_name: Seq<char>,
    pub tx_hash: Seq<char>,
    pub block_number: Option<u64>,
    pub timestamp: u64,
}

impl View for ChainProof {
    type V = ChainProofView;

    open spec fn view(&self) -> ChainProofView {
        ChainProofView {
            chain_name: self.chain_name@,
            tx_hash: self.tx_hash@,
            block_number: self.block_number,
            timestamp: self.timestamp,
        }
    }
}

impl Clone for ChainProof {
    fn clone(&self) -> (res: Self)
        ensures
            res@ == self@,
    {
        ChainProof {
            chain_name: self.chain_name.clone(),
            tx_hash: self.tx_hash.clone(),
            block_number: self.block_number,
            timestamp: self.timestamp,
        }
    }
}

/// The views of a sequence of chain proofs, in order.
pub open spec fn chain_views(s: Seq<ChainProof>) -> Seq<ChainProofView> {
    s.map_values(|c: ChainProof| c@)
}

/// Whether a chain proof under the name `name` is already present.
pub open spec fn has_chain(chains: Seq<ChainProofView>, name: Seq<char>) -> bool {
    exists|i: int| 0 <= i < chains.len() && chains[i].chain_name == name
}

/// Whether `v` holds a chain proof whose name equals `name`.
pub fn contains_chain_name(v: &Vec<ChainProof>, name: &String) -> (r: bool)
    ensures
        r == has_chain(chain_views(v@), name@),
{
    let mut i: usize = 0;
    while i < v.len()
        invariant
            i <= v.len(),
            forall|j: int| 0 <= j < i ==> v@[j].chain_name@ != name@,
        decreases v.len() - i,
    {
        if v[i].chain_name == *name {
            proof {
                assert(chain_views(v@)[i as int].chain_name == name@);
            }
            return true;
        }
        i += 1;
    }
    proof {
        assert forall|j: int| 0 <= j < v@.len() implies chain_views(v@)[j].chain_name != name@ by {}
    }
    false
}

/// Clone a vector of chain proofs, element for element.
pub fn clone_chains(v: &Vec<ChainProof>) -> (r: Vec<ChainProof>)
    ensures
        chain_views(r@) == chain_views(v@),
{
    let mut out: Vec<ChainProof> = Vec::new();
    let mut i: usize = 0;
    while i < v.len()
        invariant
            i <= v.len(),
            chain_views(out@) =~= chain_views(v@).take(i as int),
        decreases v.len() - i,
    {
        let cloned = v[i].clone();
        let ghost cv = cloned@;
        let ghost prev = out@;
        out.push(cloned);
        proof {
            assert(chain_views(prev).len() == i);
            assert(prev.len() == i);
            assert(chain_views(out@) =~= chain_views(prev).push(cv));
            assert(chain_views(v@).take(i + 1 as int) =~= chain_views(v@).take(i as int).push(
                chain_views(v@)[i as int],
            ));
        }
        i += 1;
    }
    proof {
        assert(chain_views(v@).take(v@.len() as int) =~= chain_views(v@));
    }
    out
}

/// The snapshot a proof keeps of the agreement it notarizes: signer set,
/// signer count, creator and template, decoupled from any later change to
/// the agreement store.
#[derive(Debug, PartialEq, Eq)]
pub struct ProofMetadata {
    pub signers: Vec<Principal>,
    pub total_signatures: u64,
    pub creator: Principal,
    pub template_type: String,
}

/// The mathematical content of a `ProofMetadata`.
#[verifier::ext_equal]
pub ghost struct ProofMetadataView {
    pub signers: Seq<Seq<char>>,
    pub total_signatures: u64,
    pub creator: Seq<char>,
    pub template_type: Seq<char>,
}

impl View for ProofMetadata {
    type V = ProofMetadataView;

    open spec fn view(&self) -> ProofMetadataView {
        ProofMetadataView {
            signers: principal_ids(self.signers@),
            total_signatures: self.total_signatures,
            creator: self.creator@,
            template_type: self.template_type@,
        }
    }
}

impl Clone for ProofMetadata {
    fn clone(&self) -> (res: Self)
        ensures
            res@ == self@,
    {
        let res = ProofMetadata {
            signers: crate::principal::clone_principals(&self.signers),
            total_signatures: self.total_signatures,
            creator: self.creator.clone(),
            template_type: self.template_type.clone(),
        };
        proof {
            assert(res@ =~= self@);
        }
        res
    }
}

/// A notarization proof: a content-hash commitment for one agreement,
/// anchored on one or more external ledgers.
#[derive(Debug, PartialEq, Eq)]
pub struct NotarizationProof {
    pub id: String,
    pub agreement_id: String,
    pub content_hash: String,
    pub notarized_at: u64,
    pub chains: Vec<ChainProof>,
    pub metadata: ProofMetadata,
}

/// The mathematical content of a `NotarizationProof`.
#[verifier::ext_equal]
pub ghost struct NotarizationProofView {
    pub id: Seq<char>,
    pub agreement_id: Seq<char>,
    pub content_hash: Seq<char>,
    pub notarized_at: u64,
    pub chains: Seq<ChainProofView>,
    pub metadata: ProofMetadataView,
}

impl View for NotarizationProof {
    type V = NotarizationProofView;

    open spec fn view(&self) -> NotarizationProofView {
        NotarizationProofView {
            id: self.id@,
            agreement_id: self.agreement_id@,
            content_hash: self.content_hash@,
            notarized_at: self.notarized_at,
            chains: chain_views(self.chains@),
            metadata: self.metadata@,
        }
    }
}

impl Clone for NotarizationProof {
    fn clone(&self) -> (res: Self)
        ensures
            res@ == self@,
    {
        let res = NotarizationProof {
            id: self.id.clone(),
            agreement_id: self.agreement_id.clone(),
            content_hash: self.content_hash.clone(),
            notarized_at: self.notarized_at,
            chains: clone_chains(&self.chains),
            metadata: self.metadata.clone(),
        };
        proof {
            assert(res@ =~= self@);
        }
        res
    }
}

impl NotarizationProofView {
    /// Well-formedness: at most one chain proof per chain name, and the
    /// recorded signer count matches the snapshot's signer list.
    pub open spec fn wf(&self) -> bool {
        &&& forall|i: int, j: int|
            0 <= i < j < self.chains.len() ==> self.chains[i].chain_name
                != self.chains[j].chain_name
        &&& self.metadata.total_signatures as nat == self.metadata.signers.len()
    }

    /// The same proof with one more chain proof appended.
    pub open spec fn with_chain(&self, c: ChainProofView) -> NotarizationProofView {
        NotarizationProofView { chains: self.chains.push(c), ..*self }
    }
}

impl NotarizationProof {
    /// Well-formedness of the record's mathematical content.
    pub open spec fn wf(&self) -> bool {
        self@.wf()
    }
}

/// The single-valued agreement→proof index entry: the most recently
/// inserted proof id for one agreement, last write wins.
#[derive(Debug, PartialEq, Eq)]
pub struct AgreementProofIndex {
    pub proof_id: String,
}

impl View for AgreementProofIndex {
    type V = Seq<char>;

    open spec fn view(&self) -> Seq<char> {
        self.proof_id@
    }
}

impl Clone for AgreementProofIndex {
    fn clone(&self) -> (res: Self)
        ensures
            res@ == self@,
    {
        AgreementProofIndex { proof_id: self.proof_id.clone() }
    }
}

} // verus!
