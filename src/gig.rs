use vstd::prelude::*;

use crate::identity::{opt_identity_view, Identity};

verus! {

/// Lifecycle state of a gig: open for submissions, or closed with a winner.
#[derive(Clone, Copy, Debug, PartialEq, Eq, Structural)]
pub enum GigStatus {
    Open,
    Closed,
}

impl GigStatus {
    pub fn is_open(&self) -> (r: bool)
        ensures
            r == (*self == GigStatus::Open),
    {
        match self {
            GigStatus::Open => true,
            GigStatus::Closed => false,
        }
    }
}

/// Why a lifecycle operation was refused. A refused operation changes nothing.
#[derive(Clone, Copy, Debug, PartialEq, Eq, Structural)]
pub enum GigError {
    /// The identity that the operation acts for supplied no valid proof.
    Unauthorized,
    /// Work was submitted to a gig that is no longer open.
    GigClosed,
    /// No gig carries the given id.
    NotFound,
}

/// The two slots under which a registry is persisted.
#[derive(Clone, Copy, Debug, PartialEq, Eq, Structural)]
pub enum DataKey {
    Gigs,
    Counter,
}

/// A worker's candidate solution for a gig.
#[derive(Debug)]
pub struct Submission {
    pub worker: Identity,
    pub link: String,
}

pub struct SubmissionView {
    pub worker: Seq<char>,
    pub link: Seq<char>,
}

impl View for Submission {
    type V = SubmissionView;

    open spec fn view(&self) -> SubmissionView {
        SubmissionView { worker: self.worker@, link: self.link@ }
    }
}

impl Clone for Submission {
    fn clone(&self) -> (r: Self)
        ensures
            r@ == self@,
    {
        Submission { worker: self.worker.clone(), link: self.link.clone() }
    }
}

impl PartialEq for Submission {
    fn eq(&self, o: &Submission) -> (r: bool) {
        self.worker.same_as(&o.worker) && self.link == o.link
    }
}

impl vstd::std_specs::cmp::PartialEqSpecImpl for Submission {
    open spec fn obeys_eq_spec() -> bool {
        true
    }

    open spec fn eq_spec(&self, o: &Submission) -> bool {
        self@ == o@
    }
}

/// The view of a sequence of submissions.
pub open spec fn submissions_view(s: Seq<Submission>) -> Seq<SubmissionView> {
    s.map_values(|x: Submission| x@)
}

/// The view of an optional text.
pub open spec fn opt_text_view(o: Option<String>) -> Option<Seq<char>> {
    match o {
        Some(s) => Some(s@),
        None => None,
    }
}

/// A posted task with its reward, its poster, its submissions and, once
/// closed, its winner and the reference of the payment made to the winner.
#[derive(Debug)]
pub struct Gig {
    pub id: u64,
    pub title: String,
    pub description: String,
    pub reward: u64,
    pub poster: Identity,
    pub worker: Option<Identity>,
    pub status: GigStatus,
    pub submissions: Vec<Submission>,
    pub payment_reference: Option<String>,
}

pub struct GigView {
    pub id: u64,
    pub title: Seq<char>,
    pub description: Seq<char>,
    pub reward: u64,
    pub poster: Seq<char>,
    pub worker: Option<Seq<char>>,
    pub status: GigStatus,
    pub submissions: Seq<SubmissionView>,
    pub payment_reference: Option<Seq<char>>,
}

impl View for Gig {
    type V = GigView;

    open spec fn view(&self) -> GigView {
        GigView {
            id: self.id,
            title: self.title@,
            description: self.description@,
            reward: self.reward,
            poster: self.poster@,
            worker: opt_identity_view(self.worker),
            status: self.status,
            submissions: submissions_view(self.submissions@),
            payment_reference: opt_text_view(self.payment_reference),
        }
    }
}

impl GigView {
    /// An open gig has neither winner nor payment reference; a closed one has both.
    pub open spec fn consistent(self) -> bool {
        match self.status {
            GigStatus::Open => self.worker is None && self.payment_reference is None,
            GigStatus::Closed => self.worker is Some && self.payment_reference is Some,
        }
    }
}

fn copy_opt_identity(o: &Option<Identity>) -> (r: Option<Identity>)
    ensures
        opt_identity_view(r) == opt_identity_view(*o),
{
    match o {
        Some(id) => Some(id.clone()),
        None => None,
    }
}

fn copy_opt_text(o: &Option<String>) -> (r: Option<String>)
    ensures
        opt_text_view(r) == opt_text_view(*o),
{
    match o {
        Some(s) => Some(s.clone()),
        None => None,
    }
}

impl Clone for Gig {
    fn clone(&self) -> (r: Self)
        ensures
            r@ == self@,
    {
        let mut subs: Vec<Submission> = Vec::new();
        let mut i: usize = 0;
        while i < self.submissions.len()
            invariant
                0 <= i <= self.submissions@.len(),
                subs@.len() == i,
                forall|j: int| 0 <= j < i ==> #[trigger] subs@[j]@ == self.submissions@[j]@,
            decreases self.submissions@.len() - i,
        {
            subs.push(self.submissions[i].clone());
            i = i + 1;
        }
        assert(submissions_view(subs@) =~= submissions_view(self.submissions@));
        Gig {
            id: self.id,
            title: self.title.clone(),
            description: self.description.clone(),
            reward: self.reward,
            poster: self.poster.clone(),
            worker: copy_opt_identity(&self.worker),
            status: self.status,
            submissions: subs,
            payment_reference: copy_opt_text(&self.payment_reference),
        }
    }
}

} // verus!
