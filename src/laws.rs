use vstd::prelude::*;

use crate::gig::{GigError, GigStatus, GigView, SubmissionView};
use crate::registry::{empty_registry, gig_at_position, RegistryView};

verus! {

/// The arguments of one `post_gig` call.
pub struct PostRequest {
    pub title: Seq<char>,
    pub description: Seq<char>,
    pub reward: u64,
    pub poster: Seq<char>,
}

/// One call of a public operation, with its arguments.
pub enum Operation {
    Post { title: Seq<char>, description: Seq<char>, reward: u64, poster: Seq<char> },
    Submit { gig_id: u64, worker: Seq<char>, link: Seq<char> },
    Pick { gig_id: u64, winner: Seq<char>, payment_reference: Seq<char> },
    List,
}

/// The registry after one operation, performed with the authorizations `auth`.
pub open spec fn apply(r: RegistryView, auth: Set<Seq<char>>, op: Operation) -> RegistryView {
    match op {
        Operation::Post { title, description, reward, poster } => r.post_step(
            auth,
            title,
            description,
            reward,
            poster,
        ).0,
        Operation::Submit { gig_id, worker, link } => r.submit_step(auth, gig_id, worker, link).0,
        Operation::Pick { gig_id, winner, payment_reference } => r.pick_step(
            auth,
            gig_id,
            winner,
            payment_reference,
        ).0,
        Operation::List => r,
    }
}

/// The registry after a sequence of operations, each with its own authorizations.
pub open spec fn run(r: RegistryView, ops: Seq<(Set<Seq<char>>, Operation)>) -> RegistryView
    decreases ops.len(),
{
    if ops.len() == 0 {
        r
    } else {
        let last = ops.last();
        apply(run(r, ops.drop_last()), last.0, last.1)
    }
}

/// The registry after a sequence of `post_gig` calls, and what each call returned.
pub open spec fn run_posts(r: RegistryView, auth: Set<Seq<char>>, posts: Seq<PostRequest>) -> (
    RegistryView,
    Seq<Result<u64, GigError>>,
)
    decreases posts.len(),
{
    if posts.len() == 0 {
        (r, Seq::empty())
    } else {
        let (r1, res) = run_posts(r, auth, posts.drop_last());
        let p = posts.last();
        let (r2, x) = r1.post_step(auth, p.title, p.description, p.reward, p.poster);
        (r2, res.push(x))
    }
}

/// How many of the results are successes.
pub open spec fn successes(res: Seq<Result<u64, GigError>>) -> nat
    decreases res.len(),
{
    if res.len() == 0 {
        0
    } else {
        successes(res.drop_last()) + if res.last() is Ok {
            1nat
        } else {
            0nat
        }
    }
}

proof fn lemma_run_posts_from(r: RegistryView, auth: Set<Seq<char>>, posts: Seq<PostRequest>)
    requires
        r.wf(),
        r.counter + posts.len() < u64::MAX,
    ensures
        ({
            let (n, res) = run_posts(r, auth, posts);
            &&& n.wf()
            &&& n.counter == r.counter + successes(res)
            &&& res.len() == posts.len()
            &&& forall|i: int|
                0 <= i < res.len() ==> #[trigger] res[i] == if auth.contains(posts[i].poster) {
                    Ok((r.counter + successes(res.take(i)) + 1) as u64)
                } else {
                    Err(GigError::Unauthorized)
                }
        }),
    decreases posts.len(),
{
    if posts.len() > 0 {
        let front = posts.drop_last();
        lemma_run_posts_from(r, auth, front);
        let (r1, res1) = run_posts(r, auth, front);
        let (n, res) = run_posts(r, auth, posts);
        assert(successes(res1) <= res1.len()) by {
            lemma_successes_bound(res1);
        }
        assert(res.drop_last() =~= res1);
        assert forall|i: int| 0 <= i < res.len() implies #[trigger] res[i] == if auth.contains(
            posts[i].poster,
        ) {
            Ok((r.counter + successes(res.take(i)) + 1) as u64)
        } else {
            Err(GigError::Unauthorized)
        } by {
            if i < res1.len() {
                assert(res.take(i) =~= res1.take(i));
                assert(posts[i] == front[i]);
            } else {
                assert(res.take(i) =~= res1);
            }
        }
        let p = posts.last();
        if auth.contains(p.poster) {
            let g = crate::registry::new_gig(
                (r1.counter + 1) as u64,
                p.title,
                p.description,
                p.reward,
                p.poster,
            );
            assert forall|i: int| 0 <= i < n.gigs.len() implies gig_at_position(
                #[trigger] n.gigs[i],
                i,
            ) by {
                if i < r1.gigs.len() {
                    assert(gig_at_position(r1.gigs[i], i));
                }
            }
        }
    }
}

proof fn lemma_successes_bound(res: Seq<Result<u64, GigError>>)
    ensures
        successes(res) <= res.len(),
    decreases res.len(),
{
    if res.len() > 0 {
        lemma_successes_bound(res.drop_last());
    }
}

/// Starting from an empty registry, successful `post_gig` calls return the
/// ids 1, 2, 3, ... in call order, whatever their titles, descriptions and
/// rewards; a call whose poster is not authorized fails and takes no id.
/// When every poster is authorized, the i-th call returns `i + 1`.
pub proof fn lemma_post_ids_sequential(auth: Set<Seq<char>>, posts: Seq<PostRequest>)
    requires
        posts.len() < u64::MAX,
    ensures
        ({
            let (n, res) = run_posts(empty_registry(), auth, posts);
            &&& n.counter == successes(res)
            &&& forall|i: int|
                0 <= i < res.len() ==> #[trigger] res[i] == if auth.contains(posts[i].poster) {
                    Ok((successes(res.take(i)) + 1) as u64)
                } else {
                    Err(GigError::Unauthorized)
                }
        }),
        (forall|i: int| 0 <= i < posts.len() ==> auth.contains(#[trigger] posts[i].poster))
            ==> run_posts(empty_registry(), auth, posts).1 == Seq::new(
            posts.len(),
            |i: int| Ok::<u64, GigError>((i + 1) as u64),
        ),
{
    lemma_run_posts_from(empty_registry(), auth, posts);
    let res = run_posts(empty_registry(), auth, posts).1;
    if forall|i: int| 0 <= i < posts.len() ==> auth.contains(#[trigger] posts[i].poster) {
        assert forall|i: int| 0 <= i <= res.len() implies successes(#[trigger] res.take(i)) == i by {
            lemma_successes_all(res, i);
        }
        assert(res =~= Seq::new(posts.len(), |i: int| Ok::<u64, GigError>((i + 1) as u64)));
    }
}

proof fn lemma_successes_all(res: Seq<Result<u64, GigError>>, k: int)
    requires
        0 <= k <= res.len(),
        forall|i: int| 0 <= i < res.len() ==> (#[trigger] res[i]) is Ok,
    ensures
        successes(res.take(k)) == k,
    decreases k,
{
    if k > 0 {
        lemma_successes_all(res, k - 1);
        assert(res.take(k).drop_last() =~= res.take(k - 1));
    }
}

/// `submit_work` by an authorized worker on an open gig appends exactly that
/// worker's submission to the gig and changes nothing else: not the other
/// fields of the gig, not the other gigs, not the counter.
pub proof fn lemma_submit_open_appends(
    r: RegistryView,
    auth: Set<Seq<char>>,
    gig_id: u64,
    worker: Seq<char>,
    link: Seq<char>,
)
    requires
        r.wf(),
        auth.contains(worker),
        r.has_gig(gig_id),
        r.gig(gig_id).status == GigStatus::Open,
    ensures
        ({
            let (n, res) = r.submit_step(auth, gig_id, worker, link);
            let (g0, g1) = (r.gig(gig_id), n.gig(gig_id));
            &&& res == Ok::<(), GigError>(())
            &&& n.wf()
            &&& n.counter == r.counter
            &&& n.gigs.len() == r.gigs.len()
            &&& n.has_gig(gig_id)
            &&& g1.submissions.len() == g0.submissions.len() + 1
            &&& g1.submissions == g0.submissions.push(SubmissionView { worker, link })
            &&& g1 == (GigView { submissions: g1.submissions, ..g0 })
            &&& forall|j: int| 0 <= j < r.gigs.len() && j != gig_id - 1 ==> #[trigger] n.gigs[j] == r.gigs[j]
        }),
{
    let n = r.submit_step(auth, gig_id, worker, link).0;
    assert forall|i: int| 0 <= i < n.gigs.len() implies gig_at_position(#[trigger] n.gigs[i], i) by {
        assert(gig_at_position(r.gigs[i], i));
    }
}

/// `submit_work` by an authorized worker on a closed gig signals `GigClosed`
/// and leaves the whole registry as it was.
pub proof fn lemma_submit_closed_rejected(
    r: RegistryView,
    auth: Set<Seq<char>>,
    gig_id: u64,
    worker: Seq<char>,
    link: Seq<char>,
)
    requires
        auth.contains(worker),
        r.has_gig(gig_id),
        r.gig(gig_id).status == GigStatus::Closed,
    ensures
        r.submit_step(auth, gig_id, worker, link) == (r, Err::<(), GigError>(GigError::GigClosed)),
{
}

/// After a successful `pick_winner` the gig is closed with the given winner
/// and payment reference, and picking again with the same arguments yields
/// the same registry.
pub proof fn lemma_pick_closes_idempotent(
    r: RegistryView,
    auth: Set<Seq<char>>,
    gig_id: u64,
    winner: Seq<char>,
    payment_reference: Seq<char>,
)
    requires
        r.has_gig(gig_id),
        auth.contains(r.gig(gig_id).poster),
    ensures
        ({
            let (n, res) = r.pick_step(auth, gig_id, winner, payment_reference);
            &&& res == Ok::<(), GigError>(())
            &&& n.has_gig(gig_id)
            &&& n.gig(gig_id).status == GigStatus::Closed
            &&& n.gig(gig_id).worker == Some(winner)
            &&& n.gig(gig_id).payment_reference == Some(payment_reference)
            &&& n.pick_step(auth, gig_id, winner, payment_reference) == (n, res)
        }),
{
    let n = r.pick_step(auth, gig_id, winner, payment_reference).0;
    assert(n.pick_step(auth, gig_id, winner, payment_reference).0.gigs =~= n.gigs);
}

/// Once closed, a gig stays closed with some winner and some payment
/// reference, whatever operations follow.
pub proof fn lemma_closed_stays_closed(
    r: RegistryView,
    gig_id: u64,
    ops: Seq<(Set<Seq<char>>, Operation)>,
)
    requires
        r.has_gig(gig_id),
        r.gig(gig_id).status == GigStatus::Closed,
        r.gig(gig_id).worker is Some,
        r.gig(gig_id).payment_reference is Some,
    ensures
        ({
            let n = run(r, ops);
            &&& n.has_gig(gig_id)
            &&& n.gig(gig_id).status == GigStatus::Closed
            &&& n.gig(gig_id).worker is Some
            &&& n.gig(gig_id).payment_reference is Some
        }),
    decreases ops.len(),
{
    if ops.len() > 0 {
        lemma_closed_stays_closed(r, gig_id, ops.drop_last());
    }
}

/// `pick_winner` for a gig whose poster is not among the authorized
/// identities signals `Unauthorized` and leaves the registry as it was.
pub proof fn lemma_pick_needs_poster(
    r: RegistryView,
    auth: Set<Seq<char>>,
    gig_id: u64,
    winner: Seq<char>,
    payment_reference: Seq<char>,
)
    requires
        r.has_gig(gig_id),
        !auth.contains(r.gig(gig_id).poster),
    ensures
        r.pick_step(auth, gig_id, winner, payment_reference) == (r, Err::<(), GigError>(
            GigError::Unauthorized,
        )),
{
}

/// Every operation keeps a registry well formed, as long as the counter
/// leaves room for one more id.
pub proof fn lemma_apply_keeps_wf(r: RegistryView, auth: Set<Seq<char>>, op: Operation)
    requires
        r.wf(),
        r.counter < u64::MAX,
    ensures
        apply(r, auth, op).wf(),
{
    let n = apply(r, auth, op);
    assert forall|i: int| 0 <= i < n.gigs.len() implies gig_at_position(#[trigger] n.gigs[i], i) by {
        if i < r.gigs.len() {
            assert(gig_at_position(r.gigs[i], i));
        }
    }
}

/// Listing changes nothing, and in a well-formed registry the gigs are
/// listed in creation order: ids strictly increase along the listing.
pub proof fn lemma_listing_in_creation_order(r: RegistryView, auth: Set<Seq<char>>)
    requires
        r.wf(),
    ensures
        apply(r, auth, Operation::List) == r,
        forall|i: int, j: int|
            0 <= i < j < r.gigs.len() ==> #[trigger] r.gigs[i].id < #[trigger] r.gigs[j].id,
{
    assert forall|i: int, j: int| 0 <= i < j < r.gigs.len() implies #[trigger] r.gigs[i].id
        < #[trigger] r.gigs[j].id by {
        assert(gig_at_position(r.gigs[i], i));
        assert(gig_at_position(r.gigs[j], j));
    }
}

} // verus!
