use agreement_vault::agreement_store::AgreementStore;
use agreement_vault::agreement_types::AgreementStatus;
use agreement_vault::principal::Principal;
use agreement_vault::proof_types::ChainProof;
use agreement_vault::proof_vault::ProofVault;
use sha2::Digest;

fn principal(id: &str) -> Principal {
    Principal { id: id.to_string() }
}

fn hex(bytes: &[u8]) -> String {
    bytes.iter().map(|b| format!("{:02x}", b)).collect()
}

fn chain(name: &str, tx: &str, at: u64) -> ChainProof {
    ChainProof {
        chain_name: name.to_string(),
        tx_hash: tx.to_string(),
        block_number: None,
        timestamp: at,
    }
}

#[test]
fn create_notarization_id_and_record() {
    let mut vault = ProofVault::new();
    let id = vault.create_notarization(
        "agr-1".to_string(),
        "HASH".to_string(),
        vec![principal("a"), principal("b")],
        principal("creator"),
        "nda".to_string(),
        42,
    );
    assert_eq!(id, hex(&sha2::Sha256::digest(b"agr-1HASH42")));
    let p = vault.get_proof(&id).expect("proof must exist");
    assert_eq!(p.id, id);
    assert_eq!(p.agreement_id, "agr-1");
    assert_eq!(p.content_hash, "HASH");
    assert_eq!(p.notarized_at, 42);
    assert_eq!(p.chains.len(), 1);
    assert_eq!(p.chains[0].chain_name, "ICP");
    assert_eq!(p.chains[0].tx_hash, id);
    assert_eq!(p.chains[0].block_number, None);
    assert_eq!(p.chains[0].timestamp, 42);
    assert_eq!(p.metadata.total_signatures, 2);
    assert_eq!(p.metadata.creator.id, "creator");
    assert_eq!(p.metadata.template_type, "nda");
}

#[test]
fn proof_index_overwrite_keeps_last_only() {
    let mut vault = ProofVault::new();
    let first = vault.create_notarization(
        "agr-1".to_string(),
        "H1".to_string(),
        vec![],
        principal("creator"),
        "nda".to_string(),
        1,
    );
    let second = vault.create_notarization(
        "agr-1".to_string(),
        "H2".to_string(),
        vec![],
        principal("creator"),
        "nda".to_string(),
        2,
    );
    assert_ne!(first, second);
    let indexed = vault.get_proof_by_agreement(&"agr-1".to_string()).unwrap();
    assert_eq!(indexed.id, second);
    // The first proof is only reachable by its own id.
    assert_eq!(vault.get_proof(&first).unwrap().content_hash, "H1");
}

#[test]
fn add_chain_proof_rejects_duplicate_chain() {
    let mut vault = ProofVault::new();
    let id = vault.create_notarization(
        "agr-1".to_string(),
        "H".to_string(),
        vec![principal("a")],
        principal("creator"),
        "nda".to_string(),
        1,
    );
    // "ICP" is present from creation: first write wins per chain.
    assert!(!vault.add_chain_proof(id.clone(), chain("ICP", "tx", 2), &principal("creator")));
    let p = vault.get_proof(&id).unwrap();
    assert_eq!(p.chains.len(), 1);
    assert_eq!(p.chains[0].tx_hash, id);
}

#[test]
fn add_chain_proof_authorization() {
    let mut vault = ProofVault::new();
    let id = vault.create_notarization(
        "agr-1".to_string(),
        "H".to_string(),
        vec![principal("signer")],
        principal("creator"),
        "nda".to_string(),
        1,
    );
    assert!(!vault.add_chain_proof(id.clone(), chain("Ethereum", "tx1", 2), &principal("nobody")));
    assert_eq!(vault.get_proof(&id).unwrap().chains.len(), 1);
    assert!(vault.add_chain_proof(id.clone(), chain("Ethereum", "tx1", 2), &principal("signer")));
    assert!(vault.add_chain_proof(id.clone(), chain("Constellation", "tx2", 3), &principal("creator")));
    assert!(!vault.add_chain_proof("missing".to_string(), chain("X", "tx", 4), &principal("creator")));
    let p = vault.get_proof(&id).unwrap();
    assert_eq!(p.chains.len(), 3);
    assert_eq!(p.chains[1].chain_name, "Ethereum");
    assert_eq!(p.chains[2].chain_name, "Constellation");
}

#[test]
fn verify_proof_matches_exact_hash() {
    let mut vault = ProofVault::new();
    assert!(!vault.verify_proof(&"agr-1".to_string(), &"H".to_string()));
    vault.create_notarization(
        "agr-1".to_string(),
        "H".to_string(),
        vec![],
        principal("creator"),
        "nda".to_string(),
        1,
    );
    assert!(vault.verify_proof(&"agr-1".to_string(), &"H".to_string()));
    assert!(!vault.verify_proof(&"agr-1".to_string(), &"h".to_string()));
    assert!(!vault.verify_proof(&"agr-1".to_string(), &"other".to_string()));
    assert!(!vault.verify_proof(&"agr-2".to_string(), &"H".to_string()));
}

#[test]
fn get_all_proofs_returns_every_record() {
    let mut vault = ProofVault::new();
    let id1 = vault.create_notarization(
        "agr-1".to_string(),
        "H1".to_string(),
        vec![],
        principal("creator"),
        "nda".to_string(),
        1,
    );
    let id2 = vault.create_notarization(
        "agr-2".to_string(),
        "H2".to_string(),
        vec![],
        principal("creator"),
        "nda".to_string(),
        2,
    );
    let all = vault.get_all_proofs();
    assert_eq!(all.len(), 2);
    assert_eq!(all[0].id, id1);
    assert_eq!(all[1].id, id2);
}

#[test]
fn end_to_end_scenario() {
    let mut store = AgreementStore::new();
    let mut vault = ProofVault::new();
    let a = principal("A");
    let b = principal("B");
    let creator = principal("creator");

    let agreement_id = store.create_agreement(
        "nda".to_string(),
        "Deal".to_string(),
        "H".to_string(),
        vec![principal("A"), principal("B")],
        principal("creator"),
        10,
    );
    assert_eq!(store.get_agreement(&agreement_id).unwrap().status, AgreementStatus::Draft);

    assert!(store.sign_agreement(agreement_id.clone(), &a, 11));
    let after_a = store.get_agreement(&agreement_id).unwrap();
    assert_eq!(after_a.status, AgreementStatus::Pending);
    assert_eq!(after_a.signatures.len(), 1);
    assert_eq!(after_a.signatures[0].signer.id, "A");

    assert!(store.sign_agreement(agreement_id.clone(), &b, 12));
    let after_b = store.get_agreement(&agreement_id).unwrap();
    assert_eq!(after_b.status, AgreementStatus::Signed);
    assert_eq!(after_b.signatures.len(), 2);
    assert_eq!(after_b.signatures[0].signer.id, "A");
    assert_eq!(after_b.signatures[1].signer.id, "B");

    assert!(!vault.verify_proof(&agreement_id, &"H".to_string()));
    vault.create_notarization(
        agreement_id.clone(),
        "H".to_string(),
        vec![principal("A"), principal("B")],
        creator,
        "nda".to_string(),
        13,
    );
    assert!(vault.verify_proof(&agreement_id, &"H".to_string()));
    assert!(!vault.verify_proof(&agreement_id, &"other".to_string()));
}
