//! Laws the two stores obey, stated over the same spec functions the
//! operations' contracts use.

use vstd::prelude::*;
use vstd::set_lib::lemma_len_subset;
use crate::agreement_store::index_with;
use crate::agreement_types::{AgreementStatus, AgreementView, SignatureView};

verus! {

/// Recording the same (user, agreement-id) pair twice leaves the user
/// index exactly as one recording leaves it: `add_user_agreement_index`
/// is idempotent per pair.
pub proof fn lemma_index_add_idempotent(
    m: Map<Seq<char>, Seq<Seq<char>>>,
    u: Seq<char>,
    id: Seq<char>,
)
    ensures
        index_with(index_with(m, u, id), u, id) == index_with(m, u, id),
{
    let cur = if m.contains_key(u) {
        m[u]
    } else {
        Seq::<Seq<char>>::empty()
    };
    if !cur.contains(id) {
        let m1 = m.insert(u, cur.push(id));
        assert(m1[u][cur.len() as int] == id);
        assert(m1[u].contains(id));
    }
}

/// Two notarizations for the same agreement leave the agreement→proof
/// index resolving to the second proof id only: the entry is a
/// last-write-wins mapping, not a history.
pub proof fn lemma_proof_index_last_write(
    idx: Map<Seq<char>, Seq<char>>,
    aid: Seq<char>,
    first: Seq<char>,
    second: Seq<char>,
)
    ensures
        idx.insert(aid, first).insert(aid, second)[aid] == second,
{
}

/// Signing moves a well-formed agreement to `Signed` exactly when the new
/// signature is the last missing one, and to `Pending` otherwise; the
/// signature count can never outgrow the party count.
pub proof fn lemma_completion_transition(a: AgreementView, signer: Seq<char>, now: u64)
    requires
        a.wf(),
        a.parties.contains(signer),
        !a.has_signed(signer),
    ensures
        a.signatures.len() + 1 <= a.parties.len(),
        a.with_signature(signer, now).signatures.len() == a.signatures.len() + 1,
        a.with_signature(signer, now).status == (if a.signatures.len() + 1 == a.parties.len() {
            AgreementStatus::Signed
        } else {
            AgreementStatus::Pending
        }),
        a.with_signature(signer, now).wf(),
{
    let signer_ids = a.signatures.map_values(|s: SignatureView| s.signer).push(signer);
    assert forall|i: int, j: int|
        0 <= i < signer_ids.len() && 0 <= j < signer_ids.len() && i != j implies signer_ids[i]
        != signer_ids[j] by {
        let n = a.signatures.len() as int;
        if i < n && j < n {
            assert(a.signatures[i].signer != a.signatures[j].signer);
        } else if i == n && j < n {
            assert(signer_ids[j] == a.signatures[j].signer);
        } else if j == n && i < n {
            assert(signer_ids[i] == a.signatures[i].signer);
        }
    }
    assert(signer_ids.no_duplicates());
    signer_ids.unique_seq_to_set();
    assert forall|x: Seq<char>| signer_ids.to_set().contains(x) implies a.parties.to_set().contains(
        x,
    ) by {
        let i = choose|i: int| 0 <= i < signer_ids.len() && signer_ids[i] == x;
        if i < a.signatures.len() {
            assert(a.signatures[i].signer == x);
            assert(a.parties.contains(x));
        } else {
            assert(x == signer);
        }
    }
    lemma_len_subset(signer_ids.to_set(), a.parties.to_set());
    a.parties.lemma_cardinality_of_set();
    let b = a.with_signature(signer, now);
    assert forall|i: int|
        0 <= i < b.signatures.len() implies b.parties.contains(
        #[trigger] b.signatures[i].signer,
    ) by {
        if i < a.signatures.len() {
            assert(b.signatures[i] == a.signatures[i]);
        } else {
            assert(b.signatures[i].signer == signer);
        }
    }
    assert forall|i: int, j: int|
        0 <= i < j < b.signatures.len() implies b.signatures[i].signer
        != b.signatures[j].signer by {
        if j < a.signatures.len() {
            assert(a.signatures[i].signer != a.signatures[j].signer);
        } else {
            assert(b.signatures[j].signer == signer);
            assert(a.signatures[i].signer != signer);
        }
    }
}

} // verus!
