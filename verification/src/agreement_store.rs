//! The agreement store: owns the agreement records and the signature
//! collection state machine, together with the user→agreement-ids
//! secondary index, updated in the same logical operation as the
//! primary table.

use vstd::prelude::*;
use crate::agreement_types::{
    agreement_views, contains_string, clone_strings, signature_views, signature_view,
    status_of_chars, string_views, Agreement, AgreementStatus, AgreementView, Signature,
    SignatureView, UserAgreementIndex, UserStats,
};
use crate::hashing::{content_id, content_id_chars};
use crate::principal::{clone_principals, contains_principal, principal_ids, Principal};
use crate::store_map::StoreMap;

verus! {

/// The user index after recording that `u` participates in agreement `id`:
/// the id is appended to the user's list unless it is already there.
pub open spec fn index_with(
    m: Map<Seq<char>, Seq<Seq<char>>>,
    u: Seq<char>,
    id: Seq<char>,
) -> Map<Seq<char>, Seq<Seq<char>>> {
    let cur = if m.contains_key(u) {
        m[u]
    } else {
        Seq::empty()
    };
    if cur.contains(id) {
        m
    } else {
        m.insert(u, cur.push(id))
    }
}

/// The user index after recording agreement `id` for every user in turn.
pub open spec fn index_with_all(
    m: Map<Seq<char>, Seq<Seq<char>>>,
    users: Seq<Seq<char>>,
    id: Seq<char>,
) -> Map<Seq<char>, Seq<Seq<char>>>
    decreases users.len(),
{
    if users.len() == 0 {
        m
    } else {
        index_with(index_with_all(m, users.drop_last(), id), users.last(), id)
    }
}

/// The freshly created agreement record: status `Draft`, no signature yet.
pub open spec fn new_agreement_view(
    id: Seq<char>,
    template_type: Seq<char>,
    title: Seq<char>,
    content_hash: Seq<char>,
    creator: Seq<char>,
    parties: Seq<Seq<char>>,
    now: u64,
) -> AgreementView {
    AgreementView {
        id,
        template_type,
        title,
        content_hash,
        creator,
        parties,
        status: AgreementStatus::Draft,
        signatures: Seq::empty(),
        created_at: now,
        updated_at: now,
    }
}

/// The agreements among `ids` that are present in `m`, in id order;
/// ids with no record are silently skipped.
pub open spec fn collect_present(
    ids: Seq<Seq<char>>,
    m: Map<Seq<char>, AgreementView>,
) -> Seq<AgreementView>
    decreases ids.len(),
{
    if ids.len() == 0 {
        Seq::empty()
    } else {
        let rest = collect_present(ids.drop_last(), m);
        if m.contains_key(ids.last()) {
            rest.push(m[ids.last()])
        } else {
            rest
        }
    }
}

/// How many of the agreements have the status `st`.
pub open spec fn count_status(s: Seq<AgreementView>, st: AgreementStatus) -> int
    decreases s.len(),
{
    if s.len() == 0 {
        0
    } else {
        count_status(s.drop_last(), st) + if s.last().status == st {
            1int
        } else {
            0int
        }
    }
}

/// The agreement store: the primary agreement table and the user index,
/// each in its own storage region.
pub struct AgreementStore {
    pub agreements: StoreMap<Agreement>,
    pub user_index: StoreMap<UserAgreementIndex>,
}

impl AgreementStore {
    /// Every stored agreement is well formed; every user's id list is
    /// deduplicated; the two tables have the map layer's shape.
    pub open spec fn inv(&self) -> bool {
        &&& self.agreements.inv()
        &&& self.user_index.inv()
        &&& forall|k: Seq<char>|
            self.agreements@.dom().contains(k) ==> (#[trigger] self.agreements@[k]).wf()
        &&& forall|u: Seq<char>|
            self.user_index@.dom().contains(u) ==> (#[trigger] self.user_index@[u]).no_duplicates()
    }

    /// The ids in a user's index entry, an empty sequence if there is none.
    pub open spec fn spec_user_ids(&self, u: Seq<char>) -> Seq<Seq<char>> {
        if self.user_index@.contains_key(u) {
            self.user_index@[u]
        } else {
            Seq::empty()
        }
    }

    /// An empty store.
    pub fn new() -> (r: Self)
        ensures
            r.inv(),
            r.agreements@ == Map::<Seq<char>, AgreementView>::empty(),
            r.user_index@ == Map::<Seq<char>, Seq<Seq<char>>>::empty(),
    {
        AgreementStore { agreements: StoreMap::new(), user_index: StoreMap::new() }
    }

    /// Store `agreement` under the key `id`, overwriting any record there.
    pub fn insert_agreement(&mut self, id: String, agreement: Agreement)
        requires
            old(self).inv(),
            agreement.wf(),
        ensures
            final(self).inv(),
            final(self).agreements@ == old(self).agreements@.insert(id@, agreement@),
            final(self).user_index == old(self).user_index,
    {
        self.agreements.insert(id, agreement);
        proof {
            assert forall|k: Seq<char>| self.agreements@.dom().contains(k) implies (
            #[trigger] self.agreements@[k]).wf() by {
                if k != id@ {
                    assert(old(self).agreements@.dom().contains(k));
                }
            }
        }
    }

    /// The agreement stored under `id`, if any.
    pub fn get_agreement(&self, id: &String) -> (r: Option<Agreement>)
        requires
            self.inv(),
        ensures
            match r {
                Some(a) => self.agreements@.contains_key(id@) && a@ == self.agreements@[id@]
                    && a.wf(),
                None => !self.agreements@.contains_key(id@),
            },
    {
        match self.agreements.get(id) {
            Some(a) => Some(a.clone()),
            None => None,
        }
    }

    /// Replace the agreement stored under `id`.
    pub fn update_agreement(&mut self, id: String, agreement: Agreement)
        requires
            old(self).inv(),
            agreement.wf(),
        ensures
            final(self).inv(),
            final(self).agreements@ == old(self).agreements@.insert(id@, agreement@),
            final(self).user_index == old(self).user_index,
    {
        self.insert_agreement(id, agreement);
    }

    /// Record that `user` participates in agreement `agreement_id`; the
    /// user's id list is deduplicated, so recording the same pair twice
    /// leaves the index as it was.
    pub fn add_user_agreement_index(&mut self, user: Principal, agreement_id: String)
        requires
            old(self).inv(),
        ensures
            final(self).inv(),
            final(self).agreements == old(self).agreements,
            final(self).user_index@ == index_with(old(self).user_index@, user@, agreement_id@),
    {
        let mut cur: UserAgreementIndex = match self.user_index.get(&user.id) {
            Some(idx) => idx.clone(),
            None => UserAgreementIndex { agreement_ids: Vec::new() },
        };
        proof {
            assert(cur@ =~= old(self).spec_user_ids(user@));
        }
        if !contains_string(&cur.agreement_ids, &agreement_id) {
            let ghost prior = cur@;
            cur.agreement_ids.push(agreement_id.clone());
            proof {
                assert(cur@ =~= prior.push(agreement_id@));
            }
            self.user_index.insert(user.id, cur);
            proof {
                assert forall|u: Seq<char>| self.user_index@.dom().contains(u) implies (
                #[trigger] self.user_index@[u]).no_duplicates() by {
                    if u != user@ {
                        assert(old(self).user_index@.dom().contains(u));
                    }
                }
            }
        }
    }

    /// The ids of the agreements `user` participates in, in index order.
    pub fn get_user_agreement_ids(&self, user: &Principal) -> (r: Vec<String>)
        requires
            self.inv(),
        ensures
            string_views(r@) == self.spec_user_ids(user@),
    {
        match self.user_index.get(&user.id) {
            Some(idx) => {
                let r = clone_strings(&idx.agreement_ids);
                proof {
                    assert(string_views(r@) =~= self.spec_user_ids(user@));
                }
                r
            },
            None => {
                let r: Vec<String> = Vec::new();
                proof {
                    assert(string_views(r@) =~= Seq::<Seq<char>>::empty());
                }
                r
            },
        }
    }

    /// The agreements whose ids appear in that user's index, in index
    /// order; ids with no record are silently skipped.
    pub fn get_user_agreements(&self, user: &Principal) -> (r: Vec<Agreement>)
        requires
            self.inv(),
        ensures
            agreement_views(r@) == collect_present(self.spec_user_ids(user@), self.agreements@),
            forall|i: int| 0 <= i < r@.len() ==> (#[trigger] r@[i]).wf(),
    {
        let ids = self.get_user_agreement_ids(user);
        let mut out: Vec<Agreement> = Vec::new();
        let mut i: usize = 0;
        while i < ids.len()
            invariant
                self.inv(),
                i <= ids.len(),
                string_views(ids@) == self.spec_user_ids(user@),
                agreement_views(out@) == collect_present(
                    string_views(ids@).take(i as int),
                    self.agreements@,
                ),
                forall|j: int| 0 <= j < out@.len() ==> (#[trigger] out@[j]).wf(),
            decreases ids.len() - i,
        {
            let ghost prefix = string_views(ids@).take(i as int);
            let ghost next = string_views(ids@).take(i + 1 as int);
            proof {
                assert(next.drop_last() =~= prefix);
                assert(next.last() == ids@[i as int]@);
            }
            match self.agreements.get(&ids[i]) {
                Some(a) => {
                    let cloned = a.clone();
                    out.push(cloned);
                    proof {
                        assert(agreement_views(out@) =~= collect_present(next, self.agreements@));
                    }
                },
                None => {
                    proof {
                        assert(agreement_views(out@) =~= collect_present(next, self.agreements@));
                    }
                },
            }
            i += 1;
        }
        proof {
            assert(string_views(ids@).take(ids@.len() as int) =~= string_views(ids@));
        }
        out
    }

    /// Create a new agreement: its id is the content-derived digest of the
    /// caller identity, the title and the timestamp; the record starts in
    /// `Draft` with no signature, and the id is recorded in the creator's
    /// and every listed party's user index.
    pub fn create_agreement(
        &mut self,
        template_type: String,
        title: String,
        content_hash: String,
        parties: Vec<Principal>,
        caller: Principal,
        now: u64,
    ) -> (id: String)
        requires
            old(self).inv(),
        ensures
            final(self).inv(),
            id@ == content_id_chars(caller@, title@, now as nat),
            final(self).agreements@ == old(self).agreements@.insert(
                id@,
                new_agreement_view(
                    id@,
                    template_type@,
                    title@,
                    content_hash@,
                    caller@,
                    principal_ids(parties@),
                    now,
                ),
            ),
            final(self).user_index@ == index_with_all(
                index_with(old(self).user_index@, caller@, id@),
                principal_ids(parties@),
                id@,
            ),
    {
        let id = content_id(caller.id.as_str(), title.as_str(), now);
        let agreement = Agreement {
            id: id.clone(),
            template_type,
            title,
            content_hash,
            creator: caller.clone(),
            parties: clone_principals(&parties),
            status: AgreementStatus::Draft,
            signatures: Vec::new(),
            created_at: now,
            updated_at: now,
        };
        proof {
            assert(agreement@ =~= new_agreement_view(
                id@,
                template_type@,
                title@,
                content_hash@,
                caller@,
                principal_ids(parties@),
                now,
            ));
            assert(signature_views(agreement.signatures@) =~= Seq::<SignatureView>::empty());
            assert(agreement.wf());
        }
        self.insert_agreement(id.clone(), agreement);
        self.add_user_agreement_index(caller, id.clone());
        let ghost base = index_with(old(self).user_index@, caller@, id@);
        let mut i: usize = 0;
        while i < parties.len()
            invariant
                self.inv(),
                i <= parties.len(),
                self.agreements@ == old(self).agreements@.insert(
                    id@,
                    new_agreement_view(
                        id@,
                        template_type@,
                        title@,
                        content_hash@,
                        caller@,
                        principal_ids(parties@),
                        now,
                    ),
                ),
                self.user_index@ == index_with_all(
                    base,
                    principal_ids(parties@).take(i as int),
                    id@,
                ),
            decreases parties.len() - i,
        {
            let ghost prefix = principal_ids(parties@).take(i as int);
            let ghost next = principal_ids(parties@).take(i + 1 as int);
            proof {
                assert(next.drop_last() =~= prefix);
                assert(next.last() == parties@[i as int]@);
            }
            self.add_user_agreement_index(parties[i].clone(), id.clone());
            i += 1;
        }
        proof {
            assert(principal_ids(parties@).take(parties@.len() as int) =~= principal_ids(
                parties@,
            ));
        }
        id
    }

    /// Force a status transition: only the creator may do it, the status
    /// string is parsed (anything unrecognized degrades to `Draft`) and
    /// `updated_at` moves to `now`. Returns whether the update happened;
    /// on failure the store is untouched.
    pub fn update_status(&mut self, id: String, status: String, caller: &Principal, now: u64) -> (r:
        bool)
        requires
            old(self).inv(),
        ensures
            final(self).inv(),
            r == (old(self).agreements@.contains_key(id@) && old(self).agreements@[id@].creator
                == caller@),
            !r ==> *final(self) == *old(self),
            r ==> final(self).agreements@ == old(self).agreements@.insert(
                id@,
                old(self).agreements@[id@].with_status(status_of_chars(status@), now),
            ) && final(self).user_index == old(self).user_index,
    {
        let found = match self.agreements.get(&id) {
            Some(a) => Some(a.clone()),
            None => None,
        };
        match found {
            None => false,
            Some(a) => {
                if a.creator.id != caller.id {
                    return false;
                }
                let mut updated = a;
                updated.status = AgreementStatus::from_string(status.as_str());
                updated.updated_at = now;
                proof {
                    assert(updated@ =~= old(self).agreements@[id@].with_status(
                        status_of_chars(status@),
                        now,
                    ));
                }
                self.insert_agreement(id, updated);
                true
            },
        }
    }

    /// Sign an agreement: the caller must be a party that has not signed
    /// yet. On success a signature marker is appended and the status
    /// recomputed — `Signed` once the signature count reaches the party
    /// count, `Pending` otherwise. Returns whether the signature was
    /// recorded; on failure the store is untouched.
    pub fn sign_agreement(&mut self, id: String, caller: &Principal, now: u64) -> (r: bool)
        requires
            old(self).inv(),
        ensures
            final(self).inv(),
            r == (old(self).agreements@.contains_key(id@)
                && old(self).agreements@[id@].parties.contains(caller@) && !old(
                self,
            ).agreements@[id@].has_signed(caller@)),
            !r ==> *final(self) == *old(self),
            r ==> final(self).agreements@ == old(self).agreements@.insert(
                id@,
                old(self).agreements@[id@].with_signature(caller@, now),
            ) && final(self).user_index == old(self).user_index,
    {
        let found = match self.agreements.get(&id) {
            Some(a) => Some(a.clone()),
            None => None,
        };
        match found {
            None => false,
            Some(a) => {
                if !contains_principal(&a.parties, caller) {
                    return false;
                }
                if a.has_signed(caller) {
                    return false;
                }
                let ghost prior = a@;
                let mut updated = a;
                let marker = crate::hashing::bytes_to_hex(&crate::hashing::sha256(
                    caller.id.as_str(),
                ));
                updated.signatures.push(
                    Signature { signer: caller.clone(), signed_at: now, signature_hash: marker },
                );
                updated.updated_at = now;
                if updated.signatures.len() == updated.parties.len() {
                    updated.status = AgreementStatus::Signed;
                } else {
                    updated.status = AgreementStatus::Pending;
                }
                proof {
                    assert(signature_views(updated.signatures@) =~= prior.signatures.push(
                        signature_view(caller@, now),
                    ));
                    assert(updated@ =~= prior.with_signature(caller@, now));
                    let sigs = updated@.signatures;
                    assert forall|i: int, j: int|
                        0 <= i < j < sigs.len() implies sigs[i].signer != sigs[j].signer by {
                        if j < sigs.len() - 1 {
                            assert(prior.signatures[i].signer != prior.signatures[j].signer);
                        } else {
                            assert(sigs[j].signer == caller@);
                            assert(prior.signatures[i].signer != caller@);
                        }
                    }
                    assert(updated.wf());
                }
                self.insert_agreement(id, updated);
                true
            },
        }
    }

    /// Per-user counts: the total number of agreements in the user's
    /// list, and how many of them are `Pending` and `Signed`.
    pub fn get_user_stats(&self, user: &Principal) -> (r: UserStats)
        requires
            self.inv(),
        ensures
            ({
                let found = collect_present(self.spec_user_ids(user@), self.agreements@);
                &&& r.total_agreements == found.len()
                &&& r.pending_signatures == count_status(found, AgreementStatus::Pending)
                &&& r.signed_agreements == count_status(found, AgreementStatus::Signed)
            }),
    {
        let agreements = self.get_user_agreements(user);
        let ghost found = collect_present(self.spec_user_ids(user@), self.agreements@);
        let total_agreements: u64 = agreements.len() as u64;
        let mut pending_signatures: u64 = 0;
        let mut signed_agreements: u64 = 0;
        let mut i: usize = 0;
        while i < agreements.len()
            invariant
                i <= agreements.len(),
                agreement_views(agreements@) == found,
                pending_signatures == count_status(found.take(i as int), AgreementStatus::Pending),
                signed_agreements == count_status(found.take(i as int), AgreementStatus::Signed),
                pending_signatures <= i,
                signed_agreements <= i,
            decreases agreements.len() - i,
        {
            let ghost next = found.take(i + 1 as int);
            proof {
                assert(next.drop_last() =~= found.take(i as int));
                assert(next.last() == agreements@[i as int]@);
            }
            match agreements[i].status {
                AgreementStatus::Pending => {
                    pending_signatures = pending_signatures + 1;
                },
                AgreementStatus::Signed => {
                    signed_agreements = signed_agreements + 1;
                },
                _ => {},
            }
            i += 1;
        }
        proof {
            assert(found.take(found.len() as int) =~= found);
        }
        UserStats { total_agreements, pending_signatures, signed_agreements }
    }

    /// Every stored agreement, in first-insertion order.
    pub fn get_all_agreements(&self) -> (r: Vec<Agreement>)
        requires
            self.inv(),
        ensures
            agreement_views(r@) == self.agreements.val_seq(),
    {
        let vals = self.agreements.values();
        let mut out: Vec<Agreement> = Vec::new();
        let mut i: usize = 0;
        while i < vals.len()
            invariant
                i <= vals.len(),
                vals@ == self.agreements.spec_vals(),
                agreement_views(out@) == self.agreements.val_seq().take(i as int),
            decreases vals.len() - i,
        {
            let cloned = vals[i].clone();
            let ghost cv = cloned@;
            let ghost prev = out@;
            out.push(cloned);
            proof {
                assert(agreement_views(prev).len() == i);
                assert(prev.len() == i);
                assert(agreement_views(out@) =~= agreement_views(prev).push(cv));
                assert(cv == self.agreements.val_seq()[i as int]);
                assert(self.agreements.val_seq().take(i + 1 as int) =~= self.agreements.val_seq()
                    .take(i as int).push(self.agreements.val_seq()[i as int]));
                assert(agreement_views(out@) =~= self.agreements.val_seq().take(i + 1 as int));
            }
            i += 1;
        }
        proof {
            assert(self.agreements.val_seq().take(self.agreements.val_seq().len() as int)
                =~= self.agreements.val_seq());
        }
        out
    }
}

} // verus!
