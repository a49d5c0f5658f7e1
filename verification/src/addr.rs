use vstd::prelude::*;
use crate::errors::ApiError;

verus! {

/// An endpoint address local to a node.
///
/// `name` is the human-meaningful part (a well-known service name, or a
/// diagnostic tag for generated addresses); `nonce` distinguishes generated
/// addresses from one another and from well-known ones. A well-known address
/// always has nonce 0; every address drawn from an [`AddressArena`] has a
/// nonce of at least 1, and no two draws ever share a nonce.
#[derive(Debug)]
pub struct Address {
    pub name: Vec<u8>,
    pub nonce: u64,
}

impl View for Address {
    type V = (Seq<u8>, u64);

    open spec fn view(&self) -> (Seq<u8>, u64) {
        (self.name@, self.nonce)
    }
}

/// Byte-string equality, stated over the views.
pub fn bytes_eq(a: &Vec<u8>, b: &Vec<u8>) -> (r: bool)
    ensures
        r == (a@ == b@),
{
    if a.len() != b.len() {
        return false;
    }
    let mut i: usize = 0;
    while i < a.len()
        invariant
            i <= a@.len(),
            a@.len() == b@.len(),
            forall|j: int| 0 <= j < i ==> a@[j] == b@[j],
        decreases a@.len() - i,
    {
        if a[i] != b[i] {
            return false;
        }
        i += 1;
    }
    proof {
        assert(a@ =~= b@);
    }
    true
}

/// Copy of a byte string (its view is preserved).
pub fn bytes_dup(a: &Vec<u8>) -> (r: Vec<u8>)
    ensures
        r@ == a@,
{
    let mut out: Vec<u8> = Vec::new();
    let mut i: usize = 0;
    while i < a.len()
        invariant
            i <= a@.len(),
            out@ == a@.subrange(0, i as int),
        decreases a@.len() - i,
    {
        out.push(a[i]);
        proof {
            assert(out@ =~= a@.subrange(0, i + 1 as int));
        }
        i += 1;
    }
    proof {
        assert(out@ =~= a@);
    }
    out
}

impl Address {
    /// A well-known address: fixed name, nonce 0.
    pub fn well_known(name: Vec<u8>) -> (a: Address)
        ensures
            a@ == (name@, 0u64),
    {
        Address { name, nonce: 0 }
    }

    /// Address equality, stated over the views.
    pub fn addr_eq(&self, other: &Address) -> (r: bool)
        ensures
            r == (self@ == other@),
    {
        self.nonce == other.nonce && bytes_eq(&self.name, &other.name)
    }

    /// Copy of an address (its view is preserved).
    pub fn dup(&self) -> (r: Address)
        ensures
            r@ == self@,
    {
        Address { name: bytes_dup(&self.name), nonce: self.nonce }
    }
}

/// Allocator of fresh endpoint addresses.
///
/// Every address it hands out carries a nonce strictly larger than all nonces
/// handed out before, so generated addresses are pairwise distinct and never
/// collide with a well-known (nonce 0) address.
#[derive(Debug)]
pub struct AddressArena {
    pub next_nonce: u64,
}

impl AddressArena {
    pub fn new() -> (r: AddressArena)
        ensures
            r.next_nonce == 0,
    {
        AddressArena { next_nonce: 0 }
    }

    /// A fresh, uniquely addressed endpoint, tagged for diagnostics.
    pub fn fresh_address(&mut self, tag: Vec<u8>) -> (a: Address)
        requires
            old(self).next_nonce < u64::MAX,
        ensures
            final(self).next_nonce == old(self).next_nonce + 1,
            a@ == (tag@, final(self).next_nonce),
            a.nonce > old(self).next_nonce,
            a.nonce >= 1,
    {
        self.next_nonce = self.next_nonce + 1;
        Address { name: tag, nonce: self.next_nonce }
    }
}

/// Distinct draws from one arena never collide: an address drawn when the
/// arena's counter stood at or above the state left by an earlier draw has a
/// strictly larger nonce, so its view differs from the earlier address.
pub proof fn lemma_fresh_addresses_distinct(
    a1: Address,
    after_first: AddressArena,
    before_second: AddressArena,
    a2: Address,
)
    requires
        a1.nonce == after_first.next_nonce,
        before_second.next_nonce >= after_first.next_nonce,
        a2.nonce == before_second.next_nonce + 1,
    ensures
        a1@ != a2@,
{
}

/// An ordered sequence of addresses describing the path a message traverses
/// hop by hop. Stepping a route removes its first hop.
#[derive(Debug)]
pub struct Route {
    pub hops: Vec<Address>,
}

impl View for Route {
    type V = Seq<(Seq<u8>, u64)>;

    open spec fn view(&self) -> Seq<(Seq<u8>, u64)> {
        self.hops@.map_values(|a: Address| a@)
    }
}

impl Route {
    pub fn empty() -> (r: Route)
        ensures
            r@ == Seq::<(Seq<u8>, u64)>::empty(),
    {
        let r = Route { hops: Vec::new() };
        proof {
            assert(r@ =~= Seq::<(Seq<u8>, u64)>::empty());
        }
        r
    }

    pub fn single(a: Address) -> (r: Route)
        ensures
            r@ =~= seq![a@],
    {
        let mut hops: Vec<Address> = Vec::new();
        hops.push(a);
        let r = Route { hops };
        proof {
            assert(r@ =~= seq![a@]);
        }
        r
    }

    pub fn len(&self) -> (n: usize)
        ensures
            n == self@.len(),
    {
        self.hops.len()
    }

    /// Append a hop at the end of the route.
    pub fn push_hop(&mut self, a: Address)
        ensures
            final(self)@ =~= old(self)@.push(a@),
    {
        self.hops.push(a);
    }

    /// Remove the first hop. Fails on an empty route, which is left unchanged.
    pub fn step(&mut self) -> (r: Result<(), ApiError>)
        ensures
            r is Ok <==> old(self)@.len() > 0,
            r is Ok ==> final(self)@ =~= old(self)@.drop_first(),
            r is Err ==> final(self)@ == old(self)@ && r == Err::<(), ApiError>(ApiError::InvalidRoute),
    {
        if self.hops.len() == 0 {
            Err(ApiError::InvalidRoute)
        } else {
            self.hops.remove(0);
            proof {
                assert(self@ =~= old(self)@.drop_first());
            }
            Ok(())
        }
    }

    /// Read the first hop without consuming it.
    pub fn next_hop(&self) -> (r: Option<&Address>)
        ensures
            r is Some <==> self@.len() > 0,
            r matches Some(a) ==> a@ == self@[0],
    {
        if self.hops.len() == 0 {
            None
        } else {
            Some(&self.hops[0])
        }
    }

    /// Copy of a route (its view is preserved).
    pub fn dup(&self) -> (r: Route)
        ensures
            r@ == self@,
    {
        let mut hops: Vec<Address> = Vec::new();
        let mut i: usize = 0;
        while i < self.hops.len()
            invariant
                i <= self.hops@.len(),
                hops@.len() == i,
                forall|j: int| 0 <= j < i ==> hops@[j]@ == self.hops@[j]@,
            decreases self.hops@.len() - i,
        {
            hops.push(self.hops[i].dup());
            i += 1;
        }
        let r = Route { hops };
        proof {
            assert(r@ =~= self@);
        }
        r
    }
}

} // verus!
