use vstd::prelude::*;

verus! {

/// A ledger identity, held as the text of its address.
#[derive(Debug)]
pub struct Identity {
    pub address: String,
}

impl View for Identity {
    type V = Seq<char>;

    open spec fn view(&self) -> Seq<char> {
        self.address@
    }
}

impl Identity {
    pub fn new(address: String) -> (r: Identity)
        ensures
            r@ == address@,
    {
        Identity { address }
    }

    /// Whether both values name the same identity.
    pub fn same_as(&self, other: &Identity) -> (r: bool)
        ensures
            r == (self@ == other@),
    {
        self.address == other.address
    }
}

impl Clone for Identity {
    fn clone(&self) -> (r: Self)
        ensures
            r@ == self@,
    {
        Identity { address: self.address.clone() }
    }
}

impl PartialEq for Identity {
    fn eq(&self, o: &Identity) -> (r: bool) {
        self.address == o.address
    }
}

impl vstd::std_specs::cmp::PartialEqSpecImpl for Identity {
    open spec fn obeys_eq_spec() -> bool {
        true
    }

    open spec fn eq_spec(&self, o: &Identity) -> bool {
        self@ == o@
    }
}

impl Eq for Identity {
}

/// The view of an optional identity.
pub open spec fn opt_identity_view(o: Option<Identity>) -> Option<Seq<char>> {
    match o {
        Some(id) => Some(id@),
        None => None,
    }
}

/// The identities that have supplied a valid proof of acting as themselves
/// for the operation at hand. This is the capability that the lifecycle
/// operations consult before any change attributed to an identity.
pub struct AuthContext {
    pub signers: Vec<Identity>,
}

impl View for AuthContext {
    type V = Set<Seq<char>>;

    open spec fn view(&self) -> Set<Seq<char>> {
        Set::new(|id: Seq<char>| exists|i: int| 0 <= i < self.signers@.len() && #[trigger] self.signers@[i]@ == id)
    }
}

impl AuthContext {
    pub fn new(signers: Vec<Identity>) -> (r: AuthContext)
        ensures
            r.signers@ == signers@,
    {
        AuthContext { signers }
    }

    /// An operation on behalf of nobody: no identity is authorized.
    pub fn anonymous() -> (r: AuthContext)
        ensures
            r@ == Set::<Seq<char>>::empty(),
    {
        let r = AuthContext { signers: Vec::new() };
        assert(r@ =~= Set::<Seq<char>>::empty());
        r
    }

    /// Whether a valid proof of acting as `id` was supplied.
    pub fn has_authorization(&self, id: &Identity) -> (r: bool)
        ensures
            r == self@.contains(id@),
    {
        let mut i: usize = 0;
        while i < self.signers.len()
            invariant
                0 <= i <= self.signers@.len(),
                forall|j: int| 0 <= j < i ==> self.signers@[j]@ != id@,
            decreases self.signers@.len() - i,
        {
            if self.signers[i].same_as(id) {
                return true;
            }
            i = i + 1;
        }
        false
    }
}

} // verus!
