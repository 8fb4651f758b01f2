use vstd::prelude::*;

use crate::gig::{submissions_view, Gig, GigError, GigStatus, GigView, Submission, SubmissionView};
use crate::identity::{AuthContext, Identity};

verus! {

/// The abstract registry: the id of the most recently created gig (0 if
/// none) and every gig in creation order.
pub struct RegistryView {
    pub counter: u64,
    pub gigs: Seq<GigView>,
}

/// The registry before any gig was posted.
pub open spec fn empty_registry() -> RegistryView {
    RegistryView { counter: 0, gigs: Seq::empty() }
}

/// The gig that `post_gig` creates.
pub open spec fn new_gig(
    id: u64,
    title: Seq<char>,
    description: Seq<char>,
    reward: u64,
    poster: Seq<char>,
) -> GigView {
    GigView {
        id,
        title,
        description,
        reward,
        poster,
        worker: None,
        status: GigStatus::Open,
        submissions: Seq::empty(),
        payment_reference: None,
    }
}

/// Gig `g` sits at position `i` of a well-formed registry.
pub open spec fn gig_at_position(g: GigView, i: int) -> bool {
    g.id == i + 1 && g.consistent()
}

impl RegistryView {
    /// Ids run 1, 2, 3, ... in creation order, the counter is the last one,
    /// and every gig's winner and payment reference agree with its status.
    pub open spec fn wf(self) -> bool {
        &&& self.counter == self.gigs.len()
        &&& forall|i: int| 0 <= i < self.gigs.len() ==> gig_at_position(#[trigger] self.gigs[i], i)
    }

    /// Some gig carries `id`. In a well-formed registry it is the one at
    /// position `id - 1`.
    pub open spec fn has_gig(self, id: u64) -> bool {
        1 <= id <= self.gigs.len()
    }

    pub open spec fn gig(self, id: u64) -> GigView {
        self.gigs[id - 1]
    }

    /// Replaces the gig that carries `id`.
    pub open spec fn with_gig(self, id: u64, g: GigView) -> RegistryView {
        RegistryView { counter: self.counter, gigs: self.gigs.update(id - 1, g) }
    }

    /// Outcome of `post_gig`: the new registry and the result.
    pub open spec fn post_step(
        self,
        auth: Set<Seq<char>>,
        title: Seq<char>,
        description: Seq<char>,
        reward: u64,
        poster: Seq<char>,
    ) -> (RegistryView, Result<u64, GigError>) {
        if !auth.contains(poster) {
            (self, Err(GigError::Unauthorized))
        } else {
            let id = (self.counter + 1) as u64;
            (
                RegistryView {
                    counter: id,
                    gigs: self.gigs.push(new_gig(id, title, description, reward, poster)),
                },
                Ok(id),
            )
        }
    }

    /// Outcome of `submit_work`.
    pub open spec fn submit_step(
        self,
        auth: Set<Seq<char>>,
        gig_id: u64,
        worker: Seq<char>,
        link: Seq<char>,
    ) -> (RegistryView, Result<(), GigError>) {
        if !auth.contains(worker) {
            (self, Err(GigError::Unauthorized))
        } else if !self.has_gig(gig_id) {
            (self, Err(GigError::NotFound))
        } else if self.gig(gig_id).status != GigStatus::Open {
            (self, Err(GigError::GigClosed))
        } else {
            let g = self.gig(gig_id);
            let s = SubmissionView { worker, link };
            (self.with_gig(gig_id, GigView { submissions: g.submissions.push(s), ..g }), Ok(()))
        }
    }

    /// Outcome of `pick_winner`. Authorization is asked of the gig's poster.
    pub open spec fn pick_step(
        self,
        auth: Set<Seq<char>>,
        gig_id: u64,
        winner: Seq<char>,
        payment_reference: Seq<char>,
    ) -> (RegistryView, Result<(), GigError>) {
        if !self.has_gig(gig_id) {
            (self, Err(GigError::NotFound))
        } else if !auth.contains(self.gig(gig_id).poster) {
            (self, Err(GigError::Unauthorized))
        } else {
            let g = self.gig(gig_id);
            (
                self.with_gig(
                    gig_id,
                    GigView {
                        worker: Some(winner),
                        status: GigStatus::Closed,
                        payment_reference: Some(payment_reference),
                        ..g
                    },
                ),
                Ok(()),
            )
        }
    }
}

/// The view of a sequence of gigs.
pub open spec fn gigs_view(s: Seq<Gig>) -> Seq<GigView> {
    s.map_values(|g: Gig| g@)
}

/// The registry of gigs: the single unit of persisted state.
pub struct GigContract {
    counter: u64,
    gigs: Vec<Gig>,
}

impl View for GigContract {
    type V = RegistryView;

    closed spec fn view(&self) -> RegistryView {
        RegistryView { counter: self.counter, gigs: gigs_view(self.gigs@) }
    }
}

impl GigContract {
    /// An empty registry: counter 0, no gigs.
    pub fn new() -> (r: GigContract)
        ensures
            r@ == empty_registry(),
            r@.wf(),
    {
        let r = GigContract { counter: 0, gigs: Vec::new() };
        assert(r@.gigs =~= Seq::<GigView>::empty());
        r
    }

    /// The id of the most recently created gig, 0 if none.
    pub fn counter(&self) -> (r: u64)
        ensures
            r == self@.counter,
    {
        self.counter
    }

    /// Position of the first gig whose id is `gig_id`, by a scan in creation order.
    fn find_index(&self, gig_id: u64) -> (r: Option<usize>)
        ensures
            match r {
                Some(i) => i < self@.gigs.len() && self@.gigs[i as int].id == gig_id
                    && forall|j: int| 0 <= j < i ==> self@.gigs[j].id != gig_id,
                None => forall|j: int| 0 <= j < self@.gigs.len() ==> self@.gigs[j].id != gig_id,
            },
    {
        let mut i: usize = 0;
        while i < self.gigs.len()
            invariant
                0 <= i <= self.gigs@.len(),
                self@.gigs.len() == self.gigs@.len(),
                forall|j: int| 0 <= j < i ==> self@.gigs[j].id != gig_id,
            decreases self.gigs@.len() - i,
        {
            assert(self@.gigs[i as int] == self.gigs@[i as int]@);
            if self.gigs[i].id == gig_id {
                return Some(i);
            }
            i = i + 1;
        }
        None
    }

    /// In a well-formed registry the scan finds the gig with id `gig_id`
    /// exactly where `has_gig` and `gig` place it.
    fn locate(&self, gig_id: u64) -> (r: Option<usize>)
        requires
            self@.wf(),
        ensures
            r is Some <==> self@.has_gig(gig_id),
            r is Some ==> r->0 == gig_id - 1,
    {
        let r = self.find_index(gig_id);
        proof {
            if self@.has_gig(gig_id) {
                assert(gig_at_position(self@.gigs[gig_id - 1], gig_id - 1));
            }
            match r {
                Some(i) => {
                    assert(gig_at_position(self@.gigs[i as int], i as int));
                },
                None => {},
            }
        }
        r
    }
    /// The recorded poster of gig `gig_id`: the identity whose authorization
    /// `pick_winner` asks for.
    pub fn poster_of(&self, gig_id: u64) -> (r: Option<Identity>)
        requires
            self@.wf(),
        ensures
            r is Some <==> self@.has_gig(gig_id),
            r is Some ==> r->0@ == self@.gig(gig_id).poster,
    {
        match self.locate(gig_id) {
            Some(i) => {
                assert(self@.gigs[i as int] == self.gigs@[i as int]@);
                Some(self.gigs[i].poster.clone())
            },
            None => None,
        }
    }

    /// Publishes a new open gig on behalf of `poster` and returns its id,
    /// one more than the previous counter.
    pub fn post_gig(
        &mut self,
        auth: &AuthContext,
        title: String,
        description: String,
        reward: u64,
        poster: Identity,
    ) -> (r: Result<u64, GigError>)
        requires
            old(self)@.wf(),
            old(self)@.counter < u64::MAX,
        ensures
            (final(self)@, r) == old(self)@.post_step(auth@, title@, description@, reward, poster@),
            final(self)@.wf(),
    {
        if !auth.has_authorization(&poster) {
            return Err(GigError::Unauthorized);
        }
        let id: u64 = self.counter + 1;
        let g = Gig {
            id,
            title,
            description,
            reward,
            poster,
            worker: None,
            status: GigStatus::Open,
            submissions: Vec::new(),
            payment_reference: None,
        };
        let ghost before = self.gigs@;
        proof {
            assert(submissions_view(g.submissions@) =~= Seq::<SubmissionView>::empty());
        }
        self.gigs.push(g);
        self.counter = id;
        proof {
            assert(gigs_view(self.gigs@) =~= gigs_view(before).push(g@));
        }
        Ok(id)
    }

    /// Appends `worker`'s submission `link` to the open gig `gig_id`.
    pub fn submit_work(
        &mut self,
        auth: &AuthContext,
        gig_id: u64,
        worker: Identity,
        link: String,
    ) -> (r: Result<(), GigError>)
        requires
            old(self)@.wf(),
        ensures
            (final(self)@, r) == old(self)@.submit_step(auth@, gig_id, worker@, link@),
            final(self)@.wf(),
    {
        if !auth.has_authorization(&worker) {
            return Err(GigError::Unauthorized);
        }
        let idx = match self.locate(gig_id) {
            Some(i) => i,
            None => {
                return Err(GigError::NotFound);
            },
        };
        assert(self@.gigs[idx as int] == self.gigs@[idx as int]@);
        if !self.gigs[idx].status.is_open() {
            return Err(GigError::GigClosed);
        }
        let ghost before = self.gigs@;
        let mut g = self.gigs[idx].clone();
        let ghost subs = g.submissions@;
        let s = Submission { worker, link };
        g.submissions.push(s);
        proof {
            assert(submissions_view(g.submissions@) =~= submissions_view(subs).push(s@));
        }
        self.gigs.set(idx, g);
        proof {
            assert(gigs_view(self.gigs@) =~= gigs_view(before).update(idx as int, g@));
            let nv = self@;
            assert forall|i: int| 0 <= i < nv.gigs.len() implies gig_at_position(
                #[trigger] nv.gigs[i],
                i,
            ) by {
                assert(gig_at_position(gigs_view(before)[i], i));
            }
        }
        Ok(())
    }

    /// Closes gig `gig_id` with `winner` and the reference of the payment
    /// made to it. Only the gig's poster may do so.
    pub fn pick_winner(
        &mut self,
        auth: &AuthContext,
        gig_id: u64,
        winner: Identity,
        payment_reference: String,
    ) -> (r: Result<(), GigError>)
        requires
            old(self)@.wf(),
        ensures
            (final(self)@, r) == old(self)@.pick_step(auth@, gig_id, winner@, payment_reference@),
            final(self)@.wf(),
    {
        let idx = match self.locate(gig_id) {
            Some(i) => i,
            None => {
                return Err(GigError::NotFound);
            },
        };
        assert(self@.gigs[idx as int] == self.gigs@[idx as int]@);
        if !auth.has_authorization(&self.gigs[idx].poster) {
            return Err(GigError::Unauthorized);
        }
        let ghost before = self.gigs@;
        let mut g = self.gigs[idx].clone();
        g.worker = Some(winner);
        g.status = GigStatus::Closed;
        g.payment_reference = Some(payment_reference);
        self.gigs.set(idx, g);
        proof {
            assert(gigs_view(self.gigs@) =~= gigs_view(before).update(idx as int, g@));
            let nv = self@;
            assert forall|i: int| 0 <= i < nv.gigs.len() implies gig_at_position(
                #[trigger] nv.gigs[i],
                i,
            ) by {
                assert(gig_at_position(gigs_view(before)[i], i));
            }
        }
        Ok(())
    }

    /// Every gig, in creation order. Reading changes nothing.
    pub fn get_gigs(&self) -> (r: Vec<Gig>)
        ensures
            gigs_view(r@) == self@.gigs,
    {
        let mut out: Vec<Gig> = Vec::new();
        let mut i: usize = 0;
        while i < self.gigs.len()
            invariant
                0 <= i <= self.gigs@.len(),
                out@.len() == i,
                forall|j: int| 0 <= j < i ==> #[trigger] out@[j]@ == self.gigs@[j]@,
            decreases self.gigs@.len() - i,
        {
            out.push(self.gigs[i].clone());
            i = i + 1;
        }
        assert(gigs_view(out@) =~= gigs_view(self.gigs@));
        out
    }
    /// Rebuilds a registry from its two persisted slots. Returns `None` when
    /// the slots do not form a well-formed registry.
    pub fn from_parts(counter: u64, gigs: Vec<Gig>) -> (r: Option<GigContract>)
        ensures
            r is Some <==> (RegistryView { counter, gigs: gigs_view(gigs@) }).wf(),
            r is Some ==> r->0@ == (RegistryView { counter, gigs: gigs_view(gigs@) }),
    {
        let ghost v = RegistryView { counter, gigs: gigs_view(gigs@) };
        if gigs.len() as u64 != counter {
            return None;
        }
        let mut i: usize = 0;
        while i < gigs.len()
            invariant
                0 <= i <= gigs@.len(),
                v.gigs == gigs_view(gigs@),
                forall|j: int| 0 <= j < i ==> gig_at_position(#[trigger] v.gigs[j], j),
            decreases gigs@.len() - i,
        {
            let g = &gigs[i];
            assert(v.gigs[i as int] == g@);
            if g.id == 0 || g.id - 1 != i as u64 {
                return None;
            }
            let ok = match g.status {
                GigStatus::Open => g.worker.is_none() && g.payment_reference.is_none(),
                GigStatus::Closed => g.worker.is_some() && g.payment_reference.is_some(),
            };
            if !ok {
                return None;
            }
            i = i + 1;
        }
        Some(GigContract { counter, gigs })
    }

    /// The two slots to persist: the counter and the gigs in creation order.
    pub fn into_parts(self) -> (r: (u64, Vec<Gig>))
        ensures
            r.0 == self@.counter,
            gigs_view(r.1@) == self@.gigs,
    {
        (self.counter, self.gigs)
    }
}

} // verus!
