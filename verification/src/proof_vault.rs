//! The proof vault: owns the notarization proof records and multi-chain
//! proof aggregation, together with the agreement→proof-id secondary
//! index, overwritten on every insert (last write wins).

use vstd::prelude::*;
use vstd::string::*;
use crate::hashing::{content_id, content_id_chars};
use crate::principal::{contains_principal, principal_ids, Principal};
use crate::proof_types::{
    chain_views, contains_chain_name, has_chain, AgreementProofIndex, ChainProof, ChainProofView,
    NotarizationProof, NotarizationProofView, ProofMetadata, ProofMetadataView,
};
use crate::store_map::StoreMap;

verus! {

/// The views of a sequence of proofs, in order.
pub open spec fn proof_views(s: Seq<NotarizationProof>) -> Seq<NotarizationProofView> {
    s.map_values(|p: NotarizationProof| p@)
}

/// The proof record a notarization event creates: a content-derived id
/// and a single eager local-ledger chain proof whose transaction hash is
/// the proof id itself, with no block number yet.
pub open spec fn new_proof_view(
    agreement_id: Seq<char>,
    content_hash: Seq<char>,
    signers: Seq<Seq<char>>,
    creator: Seq<char>,
    template_type: Seq<char>,
    now: u64,
) -> NotarizationProofView {
    let id = content_id_chars(agreement_id, content_hash, now as nat);
    NotarizationProofView {
        id,
        agreement_id,
        content_hash,
        notarized_at: now,
        chains: seq![
            ChainProofView { chain_name: "ICP"@, tx_hash: id, block_number: None, timestamp: now },
        ],
        metadata: ProofMetadataView {
            signers,
            total_signatures: signers.len() as u64,
            creator,
            template_type,
        },
    }
}

/// The proof vault: the primary proof table and the agreement→proof
/// index, each in its own storage region.
pub struct ProofVault {
    pub proofs: StoreMap<NotarizationProof>,
    pub agreement_index: StoreMap<AgreementProofIndex>,
}

impl ProofVault {
    /// Every stored proof is well formed; the two tables have the map
    /// layer's shape.
    pub open spec fn inv(&self) -> bool {
        &&& self.proofs.inv()
        &&& self.agreement_index.inv()
        &&& forall|k: Seq<char>|
            self.proofs@.dom().contains(k) ==> (#[trigger] self.proofs@[k]).wf()
    }

    /// The proof the index currently resolves `aid` to, if the index has
    /// an entry and the proof table still holds that id.
    pub open spec fn indexed_proof(&self, aid: Seq<char>) -> Option<NotarizationProofView> {
        if self.agreement_index@.contains_key(aid) && self.proofs@.contains_key(
            self.agreement_index@[aid],
        ) {
            Some(self.proofs@[self.agreement_index@[aid]])
        } else {
            None
        }
    }

    /// An empty vault.
    pub fn new() -> (r: Self)
        ensures
            r.inv(),
            r.proofs@ == Map::<Seq<char>, NotarizationProofView>::empty(),
            r.agreement_index@ == Map::<Seq<char>, Seq<char>>::empty(),
    {
        ProofVault { proofs: StoreMap::new(), agreement_index: StoreMap::new() }
    }

    /// Store `proof` under the key `id` and point the agreement→proof
    /// index entry for the proof's agreement at `id`, discarding whatever
    /// proof id that entry held before.
    pub fn insert_proof(&mut self, id: String, proof: NotarizationProof)
        requires
            old(self).inv(),
            proof.wf(),
        ensures
            final(self).inv(),
            final(self).proofs@ == old(self).proofs@.insert(id@, proof@),
            final(self).agreement_index@ == old(self).agreement_index@.insert(
                proof@.agreement_id,
                id@,
            ),
    {
        let agreement_id = proof.agreement_id.clone();
        self.proofs.insert(id.clone(), proof);
        self.agreement_index.insert(agreement_id, AgreementProofIndex { proof_id: id });
        proof {
            assert forall|k: Seq<char>| self.proofs@.dom().contains(k) implies (
            #[trigger] self.proofs@[k]).wf() by {
                if k != id@ {
                    assert(old(self).proofs@.dom().contains(k));
                }
            }
        }
    }

    /// The proof stored under `id`, if any.
    pub fn get_proof(&self, id: &String) -> (r: Option<NotarizationProof>)
        requires
            self.inv(),
        ensures
            match r {
                Some(p) => self.proofs@.contains_key(id@) && p@ == self.proofs@[id@] && p.wf(),
                None => !self.proofs@.contains_key(id@),
            },
    {
        match self.proofs.get(id) {
            Some(p) => Some(p.clone()),
            None => None,
        }
    }

    /// The proof the agreement→proof index currently resolves
    /// `agreement_id` to: only the most recently indexed proof, never an
    /// older one.
    pub fn get_proof_by_agreement(&self, agreement_id: &String) -> (r: Option<NotarizationProof>)
        requires
            self.inv(),
        ensures
            match r {
                Some(p) => self.indexed_proof(agreement_id@) == Some(p@) && p.wf(),
                None => self.indexed_proof(agreement_id@) is None,
            },
    {
        match self.agreement_index.get(agreement_id) {
            None => None,
            Some(idx) => match self.proofs.get(&idx.proof_id) {
                Some(p) => Some(p.clone()),
                None => None,
            },
        }
    }

    /// Whether an indexed proof exists for `agreement_id` whose content
    /// hash equals `content_hash` exactly.
    pub fn verify_proof(&self, agreement_id: &String, content_hash: &String) -> (r: bool)
        requires
            self.inv(),
        ensures
            r == (match self.indexed_proof(agreement_id@) {
                Some(p) => p.content_hash == content_hash@,
                None => false,
            }),
    {
        match self.agreement_index.get(agreement_id) {
            None => false,
            Some(idx) => match self.proofs.get(&idx.proof_id) {
                Some(p) => p.content_hash == *content_hash,
                None => false,
            },
        }
    }

    /// Every stored proof, in first-insertion order.
    pub fn get_all_proofs(&self) -> (r: Vec<NotarizationProof>)
        requires
            self.inv(),
        ensures
            proof_views(r@) == self.proofs.val_seq(),
    {
        let vals = self.proofs.values();
        let mut out: Vec<NotarizationProof> = Vec::new();
        let mut i: usize = 0;
        while i < vals.len()
            invariant
                i <= vals.len(),
                vals@ == self.proofs.spec_vals(),
                proof_views(out@) == self.proofs.val_seq().take(i as int),
            decreases vals.len() - i,
        {
            let cloned = vals[i].clone();
            let ghost cv = cloned@;
            let ghost prev = out@;
            out.push(cloned);
            proof {
                assert(proof_views(prev).len() == i);
                assert(prev.len() == i);
                assert(proof_views(out@) =~= proof_views(prev).push(cv));
                assert(cv == self.proofs.val_seq()[i as int]);
                assert(self.proofs.val_seq().take(i + 1 as int) =~= self.proofs.val_seq().take(
                    i as int,
                ).push(self.proofs.val_seq()[i as int]));
                assert(proof_views(out@) =~= self.proofs.val_seq().take(i + 1 as int));
            }
            i += 1;
        }
        proof {
            assert(self.proofs.val_seq().take(self.proofs.val_seq().len() as int)
                =~= self.proofs.val_seq());
        }
        out
    }

    /// Record a notarization event: the proof id is the content-derived
    /// digest of the agreement id, the content hash and the timestamp; the
    /// proof starts with one local-ledger chain proof and an immutable
    /// metadata snapshot, and the agreement→proof index entry is
    /// overwritten to point at it.
    pub fn create_notarization(
        &mut self,
        agreement_id: String,
        content_hash: String,
        signers: Vec<Principal>,
        creator: Principal,
        template_type: String,
        now: u64,
    ) -> (id: String)
        requires
            old(self).inv(),
        ensures
            final(self).inv(),
            id@ == content_id_chars(agreement_id@, content_hash@, now as nat),
            final(self).proofs@ == old(self).proofs@.insert(
                id@,
                new_proof_view(
                    agreement_id@,
                    content_hash@,
                    principal_ids(signers@),
                    creator@,
                    template_type@,
                    now,
                ),
            ),
            final(self).agreement_index@ == old(self).agreement_index@.insert(agreement_id@, id@),
    {
        let id = content_id(agreement_id.as_str(), content_hash.as_str(), now);
        let icp_proof = ChainProof {
            chain_name: String::from_str("ICP"),
            tx_hash: id.clone(),
            block_number: None,
            timestamp: now,
        };
        let total_signatures: u64 = signers.len() as u64;
        let metadata = ProofMetadata { signers, total_signatures, creator, template_type };
        let chains = vec![icp_proof];
        let notarization = NotarizationProof {
            id: id.clone(),
            agreement_id,
            content_hash,
            notarized_at: now,
            chains,
            metadata,
        };
        proof {
            assert(chain_views(notarization.chains@) =~= seq![
                ChainProofView {
                    chain_name: "ICP"@,
                    tx_hash: id@,
                    block_number: None,
                    timestamp: now,
                },
            ]);
            assert(notarization@ =~= new_proof_view(
                notarization.agreement_id@,
                notarization.content_hash@,
                principal_ids(notarization.metadata.signers@),
                notarization.metadata.creator@,
                notarization.metadata.template_type@,
                now,
            ));
            assert(notarization.wf());
        }
        self.insert_proof(id.clone(), notarization);
        id
    }

    /// Add one more chain proof: the caller must be the proof's creator
    /// or one of its recorded signers, and the chain name must not be
    /// present yet — first write wins per chain. Returns whether the
    /// chain proof was appended; on failure the vault is untouched.
    pub fn add_chain_proof(&mut self, proof_id: String, chain_proof: ChainProof, caller: &Principal)
        -> (r: bool)
        requires
            old(self).inv(),
        ensures
            final(self).inv(),
            r == (old(self).proofs@.contains_key(proof_id@) && (old(
                self,
            ).proofs@[proof_id@].metadata.creator == caller@ || old(
                self,
            ).proofs@[proof_id@].metadata.signers.contains(caller@)) && !has_chain(
                old(self).proofs@[proof_id@].chains,
                chain_proof@.chain_name,
            )),
            !r ==> *final(self) == *old(self),
            r ==> final(self).proofs@ == old(self).proofs@.insert(
                proof_id@,
                old(self).proofs@[proof_id@].with_chain(chain_proof@),
            ) && final(self).agreement_index@ == old(self).agreement_index@.insert(
                old(self).proofs@[proof_id@].agreement_id,
                proof_id@,
            ),
    {
        let found = match self.proofs.get(&proof_id) {
            Some(p) => Some(p.clone()),
            None => None,
        };
        match found {
            None => false,
            Some(p) => {
                let is_creator = p.metadata.creator.id == caller.id;
                if !is_creator && !contains_principal(&p.metadata.signers, caller) {
                    return false;
                }
                if contains_chain_name(&p.chains, &chain_proof.chain_name) {
                    return false;
                }
                let ghost prior = p@;
                let ghost added = chain_proof@;
                let mut updated = p;
                updated.chains.push(chain_proof);
                proof {
                    assert(chain_views(updated.chains@) =~= prior.chains.push(added));
                    assert(updated@ =~= prior.with_chain(added));
                    let chains = updated@.chains;
                    assert forall|i: int, j: int|
                        0 <= i < j < chains.len() implies chains[i].chain_name
                        != chains[j].chain_name by {
                        if j < chains.len() - 1 {
                            assert(prior.chains[i].chain_name != prior.chains[j].chain_name);
                        } else {
                            assert(chains[j].chain_name == added.chain_name);
                            assert(prior.chains[i].chain_name != added.chain_name);
                        }
                    }
                    assert(updated.wf());
                }
                self.insert_proof(proof_id, updated);
                true
            },
        }
    }
}

} // verus!
