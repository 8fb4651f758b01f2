use gig_registry::{AuthContext, DataKey, GigContract, GigError, GigStatus, Identity};

fn id(s: &str) -> Identity {
    Identity::new(String::from(s))
}

fn all_of(ids: &[&Identity]) -> AuthContext {
    AuthContext::new(ids.iter().map(|i| (*i).clone()).collect())
}

fn text(s: &str) -> String {
    String::from(s)
}

#[test]
fn fix_bug_scenario() {
    let mut c = GigContract::new();
    let poster = id("Poster");
    let worker = id("Worker");
    let auth = all_of(&[&poster, &worker]);
    assert_eq!(
        c.post_gig(&auth, text("Fix Bug"), text("Fix a CSS bug"), 10, poster.clone()),
        Ok(1)
    );
    let gigs = c.get_gigs();
    assert_eq!(gigs.len(), 1);
    assert_eq!(gigs[0].id, 1);
    assert_eq!(gigs[0].status, GigStatus::Open);
    assert!(gigs[0].submissions.is_empty());
    assert_eq!(gigs[0].worker, None);
    assert_eq!(gigs[0].payment_reference, None);

    assert_eq!(c.submit_work(&auth, 1, worker.clone(), text("https://pr/1")), Ok(()));
    let gigs = c.get_gigs();
    assert_eq!(gigs[0].submissions.len(), 1);
    assert_eq!(gigs[0].submissions[0].worker, worker);
    assert_eq!(gigs[0].submissions[0].link, "https://pr/1");

    assert_eq!(c.pick_winner(&auth, 1, worker.clone(), text("tx_123")), Ok(()));
    let gigs = c.get_gigs();
    assert_eq!(gigs[0].status, GigStatus::Closed);
    assert_eq!(gigs[0].worker, Some(worker));
    assert_eq!(gigs[0].payment_reference, Some(text("tx_123")));
}

#[test]
fn two_workers_and_a_repeat_keep_submission_order() {
    let mut c = GigContract::new();
    let poster = id("P");
    let w1 = id("W1");
    let w2 = id("W2");
    let auth = all_of(&[&poster, &w1, &w2]);
    let g = c.post_gig(&auth, text("t"), text("d"), 0, poster).unwrap();
    c.submit_work(&auth, g, w1.clone(), text("a")).unwrap();
    c.submit_work(&auth, g, w2.clone(), text("b")).unwrap();
    c.submit_work(&auth, g, w1.clone(), text("a")).unwrap();
    let subs = &c.get_gigs()[0].submissions;
    assert_eq!(subs.len(), 3);
    assert_eq!(subs[0].worker, w1);
    assert_eq!(subs[0].link, "a");
    assert_eq!(subs[1].worker, w2);
    assert_eq!(subs[1].link, "b");
    assert_eq!(subs[2].worker, w1);
    assert_eq!(subs[2], subs[0]);
}

#[test]
fn ids_are_sequential_whatever_the_content() {
    let mut c = GigContract::new();
    let p = id("P");
    let auth = all_of(&[&p]);
    for k in 1..=5u64 {
        let r = c.post_gig(&auth, text("same"), text(""), k * 7, p.clone());
        assert_eq!(r, Ok(k));
    }
    assert_eq!(c.counter(), 5);
    let ids: Vec<u64> = c.get_gigs().iter().map(|g| g.id).collect();
    assert_eq!(ids, vec![1, 2, 3, 4, 5]);
}

#[test]
fn unauthorized_post_takes_no_id() {
    let mut c = GigContract::new();
    let p = id("P");
    let q = id("Q");
    let only_q = all_of(&[&q]);
    assert_eq!(
        c.post_gig(&only_q, text("t"), text("d"), 1, p.clone()),
        Err(GigError::Unauthorized)
    );
    assert_eq!(c.counter(), 0);
    assert!(c.get_gigs().is_empty());
    assert_eq!(c.post_gig(&only_q, text("t"), text("d"), 1, q), Ok(1));
}

#[test]
fn submit_errors() {
    let mut c = GigContract::new();
    let p = id("P");
    let w = id("W");
    let auth = all_of(&[&p, &w]);
    let g = c.post_gig(&auth, text("t"), text("d"), 1, p.clone()).unwrap();

    let only_p = all_of(&[&p]);
    assert_eq!(
        c.submit_work(&only_p, g, w.clone(), text("x")),
        Err(GigError::Unauthorized)
    );
    assert_eq!(c.submit_work(&auth, 0, w.clone(), text("x")), Err(GigError::NotFound));
    assert_eq!(c.submit_work(&auth, 2, w.clone(), text("x")), Err(GigError::NotFound));
    assert!(c.get_gigs()[0].submissions.is_empty());

    c.pick_winner(&auth, g, w.clone(), text("ref")).unwrap();
    assert_eq!(c.submit_work(&auth, g, w.clone(), text("x")), Err(GigError::GigClosed));
    let gigs = c.get_gigs();
    assert!(gigs[0].submissions.is_empty());
    assert_eq!(gigs[0].status, GigStatus::Closed);
}

#[test]
fn pick_winner_needs_the_recorded_poster() {
    let mut c = GigContract::new();
    let p = id("P");
    let w = id("W");
    let both = all_of(&[&p, &w]);
    let g = c.post_gig(&both, text("t"), text("d"), 3, p.clone()).unwrap();

    let only_w = all_of(&[&w]);
    assert_eq!(
        c.pick_winner(&only_w, g, w.clone(), text("r")),
        Err(GigError::Unauthorized)
    );
    assert_eq!(
        c.pick_winner(&AuthContext::anonymous(), g, w.clone(), text("r")),
        Err(GigError::Unauthorized)
    );
    let gigs = c.get_gigs();
    assert_eq!(gigs[0].status, GigStatus::Open);
    assert_eq!(gigs[0].worker, None);
    assert_eq!(gigs[0].payment_reference, None);

    assert_eq!(c.pick_winner(&both, 9, w.clone(), text("r")), Err(GigError::NotFound));
    assert_eq!(c.pick_winner(&all_of(&[&p]), g, w.clone(), text("r")), Ok(()));
}

#[test]
fn picking_twice_keeps_the_gig_closed() {
    let mut c = GigContract::new();
    let p = id("P");
    let w1 = id("W1");
    let w2 = id("W2");
    let auth = all_of(&[&p]);
    let g = c.post_gig(&auth, text("t"), text("d"), 3, p.clone()).unwrap();
    c.pick_winner(&auth, g, w1.clone(), text("r1")).unwrap();
    c.pick_winner(&auth, g, w1.clone(), text("r1")).unwrap();
    let gigs = c.get_gigs();
    assert_eq!(gigs[0].worker, Some(w1.clone()));
    assert_eq!(gigs[0].payment_reference, Some(text("r1")));
    c.pick_winner(&auth, g, w2.clone(), text("r2")).unwrap();
    let gigs = c.get_gigs();
    assert_eq!(gigs[0].status, GigStatus::Closed);
    assert_eq!(gigs[0].worker, Some(w2));
    assert_eq!(gigs[0].payment_reference, Some(text("r2")));
}

#[test]
fn other_gigs_are_untouched() {
    let mut c = GigContract::new();
    let p = id("P");
    let w = id("W");
    let auth = all_of(&[&p, &w]);
    c.post_gig(&auth, text("a"), text("da"), 1, p.clone()).unwrap();
    c.post_gig(&auth, text("b"), text("db"), 2, p.clone()).unwrap();
    c.submit_work(&auth, 2, w.clone(), text("l")).unwrap();
    c.pick_winner(&auth, 2, w.clone(), text("r")).unwrap();
    let gigs = c.get_gigs();
    assert_eq!(gigs[0].title, "a");
    assert!(gigs[0].submissions.is_empty());
    assert_eq!(gigs[0].status, GigStatus::Open);
    assert_eq!(gigs[1].title, "b");
    assert_eq!(gigs[1].submissions.len(), 1);
    assert_eq!(gigs[1].status, GigStatus::Closed);
}

#[test]
fn get_gigs_does_not_change_state() {
    let mut c = GigContract::new();
    let p = id("P");
    let auth = all_of(&[&p]);
    c.post_gig(&auth, text("a"), text("d"), 1, p.clone()).unwrap();
    let first = c.get_gigs();
    let second = c.get_gigs();
    assert_eq!(first.len(), second.len());
    assert_eq!(first[0].title, second[0].title);
    assert_eq!(c.counter(), 1);
    assert_eq!(c.post_gig(&auth, text("b"), text("d"), 1, p), Ok(2));
}

#[test]
fn parts_round_trip_and_validation() {
    let mut c = GigContract::new();
    let p = id("P");
    let w = id("W");
    let auth = all_of(&[&p, &w]);
    c.post_gig(&auth, text("a"), text("d"), 1, p.clone()).unwrap();
    c.post_gig(&auth, text("b"), text("d"), 1, p.clone()).unwrap();
    c.pick_winner(&auth, 1, w.clone(), text("r")).unwrap();

    let (counter, gigs) = c.into_parts();
    assert_eq!(counter, 2);
    assert_eq!(gigs.len(), 2);

    assert!(GigContract::from_parts(3, gigs.clone()).is_none());
    let mut swapped = gigs.clone();
    swapped.swap(0, 1);
    assert!(GigContract::from_parts(2, swapped).is_none());
    let mut open_with_winner = gigs.clone();
    open_with_winner[1].worker = Some(w.clone());
    assert!(GigContract::from_parts(2, open_with_winner).is_none());
    let mut closed_without_ref = gigs.clone();
    closed_without_ref[0].payment_reference = None;
    assert!(GigContract::from_parts(2, closed_without_ref).is_none());

    let mut back = GigContract::from_parts(2, gigs).unwrap();
    assert_eq!(back.counter(), 2);
    assert_eq!(back.get_gigs()[0].status, GigStatus::Closed);
    assert_eq!(back.post_gig(&auth, text("c"), text("d"), 1, p), Ok(3));
    assert!(GigContract::from_parts(0, Vec::new()).is_some());
}

#[test]
fn authorization_lookup() {
    let a = id("A");
    let b = id("B");
    let ctx = all_of(&[&a]);
    assert!(ctx.has_authorization(&a));
    assert!(!ctx.has_authorization(&b));
    assert!(!AuthContext::anonymous().has_authorization(&a));
    assert!(a.same_as(&id("A")));
    assert!(!a.same_as(&b));
    assert!(GigStatus::Open.is_open());
    assert!(!GigStatus::Closed.is_open());
    assert_ne!(DataKey::Gigs, DataKey::Counter);
}

#[test]
fn poster_lookup() {
    let mut c = GigContract::new();
    let p = id("P");
    let auth = all_of(&[&p]);
    assert_eq!(c.poster_of(1), None);
    c.post_gig(&auth, text("t"), text("d"), 1, p.clone()).unwrap();
    assert_eq!(c.poster_of(1), Some(p));
    assert_eq!(c.poster_of(2), None);
    assert_eq!(c.poster_of(0), None);
}
