//! The caller identity the stores work with. Authentication happens
//! upstream; here an identity is just its textual form, compared for
//! equality and hashed into content-derived identifiers.

use vstd::prelude::*;

verus! {

/// An already-authenticated caller identity.
#[derive(Debug, PartialEq, Eq)]
pub struct Principal {
    pub id: String,
}

impl View for Principal {
    type V = Seq<char>;

    open spec fn view(&self) -> Seq<char> {
        self.id@
    }
}

impl Clone for Principal {
    fn clone(&self) -> (res: Self)
        ensures
            res == *self,
    {
        Principal { id: self.id.clone() }
    }
}

/// The identities of a sequence of principals, in order.
pub open spec fn principal_ids(s: Seq<Principal>) -> Seq<Seq<char>> {
    s.map_values(|p: Principal| p@)
}

/// Whether `v` contains a principal with the identity of `p`.
pub fn contains_principal(v: &Vec<Principal>, p: &Principal) -> (r: bool)
    ensures
        r == principal_ids(v@).contains(p@),
{
    let mut i: usize = 0;
    while i < v.len()
        invariant
            i <= v.len(),
            forall|j: int| 0 <= j < i ==> v@[j]@ != p@,
        decreases v.len() - i,
    {
        if v[i].id == p.id {
            proof {
                assert(principal_ids(v@)[i as int] == p@);
            }
            return true;
        }
        i += 1;
    }
    proof {
        assert forall|j: int| 0 <= j < v@.len() implies principal_ids(v@)[j] != p@ by {}
    }
    false
}

/// Clone a vector of principals, element for element.
pub fn clone_principals(v: &Vec<Principal>) -> (r: Vec<Principal>)
    ensures
        r@ == v@,
{
    let mut out: Vec<Principal> = Vec::new();
    let mut i: usize = 0;
    while i < v.len()
        invariant
            i <= v.len(),
            out@ =~= v@.take(i as int),
        decreases v.len() - i,
    {
        out.push(v[i].clone());
        proof {
            assert(out@ =~= v@.take(i + 1 as int));
        }
        i += 1;
    }
    proof {
        assert(v@.take(v@.len() as int) =~= v@);
    }
    out
}

} // verus!
