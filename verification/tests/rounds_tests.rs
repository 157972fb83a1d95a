use buffett_bots::airdrop::{airdrop_amount, funding_target, AirdropWatch, MAX_AIRDROP_POLLS};
use buffett_bots::barrier::{barrier_balance_ok, BarrierAction, BarrierAttempts};
use buffett_bots::batches::BatchQueue;
use buffett_bots::config::bench_config;
use buffett_bots::convergence::{convergence_verdict, ConvergeAction, ConvergeVerdict, ConvergeWatch, MAX_CONVERGE_ROUNDS};

#[test]
fn batches_are_cut_like_chunks_and_handed_out_in_order() {
    let mut q: BatchQueue<u32> = BatchQueue::new();
    assert!(q.is_empty());
    let items: Vec<u32> = (0..10).collect();
    q.push_batches(items.clone(), 4);
    // 10 / 4 == 2: five batches of two.
    assert_eq!(q.len(), 5);
    let expected: Vec<Vec<u32>> = items.chunks(2).map(|c| c.to_vec()).collect();
    let mut out = Vec::new();
    while let Some(b) = q.pop_batch() {
        out.push(b);
    }
    assert_eq!(out, expected);
    assert!(q.pop_batch().is_none());
}

#[test]
fn last_batch_takes_the_rest() {
    let mut q: BatchQueue<u32> = BatchQueue::new();
    q.push_batches((0..7).collect(), 3);
    q.push_batches(vec![100, 101], 2);
    let mut out = Vec::new();
    while let Some(b) = q.pop_batch() {
        out.push(b);
    }
    assert_eq!(out, vec![vec![0, 1], vec![2, 3], vec![4, 5], vec![6], vec![100], vec![101]]);
    let flat: Vec<u32> = out.concat();
    assert_eq!(flat, vec![0, 1, 2, 3, 4, 5, 6, 100, 101]);
}

#[test]
fn airdrop_amounts() {
    assert_eq!(funding_target(0, 500_000), Some(10_000_000));
    assert_eq!(funding_target(19, 3), Some(3));
    assert_eq!(funding_target(20, 3), None);
    assert_eq!(airdrop_amount(5, 12), Some(7));
    assert_eq!(airdrop_amount(12, 12), None);
    assert_eq!(airdrop_amount(-3, 1), Some(4));
}

#[test]
fn airdrop_watch_stops_on_change_or_after_twenty_reads() {
    let mut w = AirdropWatch::new(5);
    assert!(!w.observe(None));
    assert_eq!(w.current_balance(), 5);
    assert!(!w.observe(Some(5)));
    assert!(w.observe(Some(12)));
    assert_eq!(w.current_balance(), 12);
    assert!(w.succeeded(7));
    assert!(!w.succeeded(6));

    let mut w = AirdropWatch::new(1);
    let mut reads = 0;
    while !w.exhausted() {
        assert!(!w.observe(Some(1)));
        reads += 1;
    }
    assert_eq!(reads, MAX_AIRDROP_POLLS);
    assert!(!w.succeeded(3));
    assert!(w.succeeded(0));
}

#[test]
fn barrier_decisions() {
    let mut a = BarrierAttempts::new();
    assert_eq!(a.on_attempt(false, 10), BarrierAction::Retry);
    assert_eq!(a.on_attempt(false, 180_000), BarrierAction::Retry);
    assert_eq!(a.on_attempt(false, 180_001), BarrierAction::TimedOut);
    assert_eq!(a.on_attempt(true, 999_999), BarrierAction::Confirmed { retries: 0 });
    let mut reports = Vec::new();
    for _ in 0..17 {
        reports.push(a.on_retry(false));
    }
    let reported: Vec<usize> = reports.iter().enumerate().filter(|(_, r)| **r).map(|(i, _)| i).collect();
    assert_eq!(reported, vec![8, 16]);
    assert_eq!(a.on_attempt(true, 0), BarrierAction::Confirmed { retries: 17 });
    // A moving last id is never reported.
    let mut b = BarrierAttempts::new();
    for _ in 0..9 {
        assert!(!b.on_retry(true));
    }
    assert!(barrier_balance_ok(1));
    assert!(!barrier_balance_ok(0));
    assert!(!barrier_balance_ok(2));
}

#[test]
fn convergence_rounds() {
    let mut w = ConvergeWatch::new(3);
    assert_eq!(w.observe(false, 10), ConvergeAction::Wait { report: false });
    assert_eq!(w.observe(true, 2), ConvergeAction::Wait { report: true });
    assert_eq!(w.observe(true, 3), ConvergeAction::Converged);
    let mut w = ConvergeWatch::new(1);
    let mut rounds = 0;
    while !w.finished() {
        w.observe(false, 0);
        rounds += 1;
    }
    assert_eq!(rounds, MAX_CONVERGE_ROUNDS);
}

#[test]
fn convergence_verdicts() {
    let c = bench_config(None, Some(b"3"), None, None, false, false, false).unwrap();
    assert_eq!(convergence_verdict(2, true, &c), ConvergeVerdict::TooFewNodes);
    assert_eq!(convergence_verdict(4, false, &c), ConvergeVerdict::NoLeader);
    assert_eq!(convergence_verdict(4, true, &c), ConvergeVerdict::Proceed);
    let strict = bench_config(None, Some(b"3"), None, None, false, true, true).unwrap();
    assert_eq!(convergence_verdict(4, true, &strict), ConvergeVerdict::TooManyNodes);
    assert_eq!(convergence_verdict(3, true, &strict), ConvergeVerdict::ConvergeOnly);
    assert_eq!(convergence_verdict(3, false, &strict), ConvergeVerdict::NoLeader);
}
