use shogun::Asset;
use shogun::AssetPriceEvent;
use shogun::AssetPriceProvider;
use shogun::Broadcaster;
use shogun::Chain;
use shogun::DefiLlamaProvider;
use shogun::FetchOutcome;
use shogun::PollState;
use shogun::Price;
use shogun::PriceService;
use shogun::RecvResult;
use shogun::TickAction;

fn event(tag: u64) -> AssetPriceEvent {
    AssetPriceEvent {
        provider: AssetPriceProvider::DeFiLlama,
        asset: Asset::new(
            String::from("0xabc"),
            String::from("WETH"),
            Chain::Evm(1),
            None,
            18,
        ),
        price: Price::zero(),
        fetched_at: tag,
    }
}

#[test]
fn lossy_broadcast_gap_not_crash() {
    let mut b = Broadcaster::new(3);
    let mut c = b.subscribe();
    assert_eq!(c.position(), 0);

    // The subscriber does not poll while more events than the capacity
    // are published; the publisher is never blocked or failed by that.
    for i in 0..5u64 {
        b.publish(event(i));
    }
    assert_eq!(b.published_count(), 5);

    // The first poll resumes at the oldest buffered event, reporting the
    // two lost ones as a gap.
    match b.recv(&mut c) {
        RecvResult::Received { event, skipped } => {
            assert_eq!(skipped, 2);
            assert_eq!(event.fetched_at, 2);
        }
        RecvResult::Empty => panic!("expected an event"),
    }
    // From there delivery is gapless.
    match b.recv(&mut c) {
        RecvResult::Received { event, skipped } => {
            assert_eq!(skipped, 0);
            assert_eq!(event.fetched_at, 3);
        }
        RecvResult::Empty => panic!("expected an event"),
    }
    match b.recv(&mut c) {
        RecvResult::Received { event, skipped } => {
            assert_eq!(skipped, 0);
            assert_eq!(event.fetched_at, 4);
        }
        RecvResult::Empty => panic!("expected an event"),
    }
    assert!(matches!(b.recv(&mut c), RecvResult::Empty));
}

#[test]
fn prompt_subscriber_sees_everything() {
    let mut b = Broadcaster::new(3);
    let mut c = b.subscribe();
    for i in 0..3u64 {
        b.publish(event(i));
    }
    let events = b.drain(&mut c);
    assert_eq!(events.len(), 3);
    for (i, e) in events.iter().enumerate() {
        assert_eq!(e.fetched_at, i as u64);
    }
    assert!(matches!(b.recv(&mut c), RecvResult::Empty));
}

#[test]
fn start_twice_spawns_once_per_backend() {
    let providers = vec![DefiLlamaProvider::new(30), DefiLlamaProvider::new(60)];
    let mut service = PriceService::new(providers);
    assert!(!service.is_running());

    let first = service.start();
    assert_eq!(first, 2);
    assert!(service.is_running());

    let second = service.start();
    assert_eq!(second, 0);
    assert!(service.is_running());
}

#[test]
fn stop_clears_running_and_start_respawns() {
    let providers = vec![DefiLlamaProvider::new(30), DefiLlamaProvider::new(60)];
    let mut service = PriceService::new(providers);
    assert_eq!(service.start(), 2);
    assert!(service.running_of(0));
    assert!(service.running_of(1));

    service.stop();
    assert!(!service.is_running());
    assert!(!service.running_of(0));
    assert!(!service.running_of(1));

    // After a stop, start spawns fresh tasks again.
    assert_eq!(service.start(), 2);
}

#[test]
fn provider_start_reports_new_spawn_only() {
    let mut p = DefiLlamaProvider::new(30);
    assert!(!p.is_running());
    assert!(p.start());
    assert!(p.is_running());
    assert!(!p.start());
}

#[test]
fn merged_subscription_yields_every_backends_events() {
    let providers = vec![DefiLlamaProvider::new(30), DefiLlamaProvider::new(60)];
    let mut service = PriceService::new(providers);
    let mut sub = service.subscribe();

    // Backend A publishes two events, backend B three.
    service.publish_from(0, vec![event(10), event(11)]);
    service.publish_from(1, vec![event(20), event(21), event(22)]);

    let merged = service.poll_subscription(&mut sub);
    assert_eq!(merged.len(), 5);
    let tags: Vec<u64> = merged.iter().map(|e| e.fetched_at).collect();
    for expected in [10, 11, 20, 21, 22] {
        assert!(tags.contains(&expected));
    }
    // Per-backend order is kept.
    let a_tags: Vec<u64> = tags.iter().copied().filter(|t| *t < 20).collect();
    assert_eq!(a_tags, vec![10, 11]);
    let b_tags: Vec<u64> = tags.iter().copied().filter(|t| *t >= 20).collect();
    assert_eq!(b_tags, vec![20, 21, 22]);

    // A second poll finds nothing until more is published.
    let merged = service.poll_subscription(&mut sub);
    assert_eq!(merged.len(), 0);
    service.publish_from(0, vec![event(12)]);
    let merged = service.poll_subscription(&mut sub);
    assert_eq!(merged.len(), 1);
    assert_eq!(merged[0].fetched_at, 12);
}

#[test]
fn each_subscription_is_independent() {
    let providers = vec![DefiLlamaProvider::new(30)];
    let mut service = PriceService::new(providers);
    let mut early = service.subscribe();
    service.publish_from(0, vec![event(1), event(2)]);
    // A subscription taken after publishing starts at the live end.
    let mut late = service.subscribe();
    assert_eq!(service.poll_subscription(&mut early).len(), 2);
    assert_eq!(service.poll_subscription(&mut late).len(), 0);
}

#[test]
fn poll_state_retries_with_backoff_then_escalates() {
    let mut p = PollState::new();
    assert!(p.start());
    p.begin_cycle();
    assert_eq!(p.cycles, 1);

    assert_eq!(p.on_fetch_outcome(FetchOutcome::Fetched), TickAction::Publish);
    assert_eq!(p.consecutive_failures, 0);

    // Retryable failures back off exponentially: 1, 2, 4, 8 seconds...
    assert_eq!(
        p.on_fetch_outcome(FetchOutcome::TransportFailure),
        TickAction::RetryAfter(1)
    );
    assert_eq!(
        p.on_fetch_outcome(FetchOutcome::DeserializationFailure),
        TickAction::RetryAfter(2)
    );
    assert_eq!(
        p.on_fetch_outcome(FetchOutcome::TransportFailure),
        TickAction::RetryAfter(4)
    );
    assert_eq!(
        p.on_fetch_outcome(FetchOutcome::TransportFailure),
        TickAction::RetryAfter(8)
    );
    // ... and the bounded fifth failure in a row stops the loop.
    assert_eq!(
        p.on_fetch_outcome(FetchOutcome::TransportFailure),
        TickAction::Escalate
    );
    assert!(!p.running);

    // A success after a failure resets the failure count.
    let mut q = PollState::new();
    q.start();
    assert_eq!(
        q.on_fetch_outcome(FetchOutcome::TransportFailure),
        TickAction::RetryAfter(1)
    );
    assert_eq!(q.on_fetch_outcome(FetchOutcome::Fetched), TickAction::Publish);
    assert_eq!(
        q.on_fetch_outcome(FetchOutcome::TransportFailure),
        TickAction::RetryAfter(1)
    );
}

#[test]
fn cycle_counter_is_monotone() {
    let mut p = PollState::new();
    for expected in 1..=4u64 {
        p.begin_cycle();
        assert_eq!(p.cycles, expected);
    }
}

#[test]
fn distributor_forwards_registration_to_every_backend() {
    let providers = vec![DefiLlamaProvider::new(30), DefiLlamaProvider::new(60)];
    let mut service = PriceService::new(providers);
    service.add_asset(Asset::new(
        String::from("0xabc"),
        String::from("WETH"),
        Chain::Evm(1),
        None,
        18,
    ));
    for i in 0..2 {
        let snapshot = service.snapshot_of(i);
        assert_eq!(snapshot.len(), 1);
        assert_eq!(snapshot.lookup("0xabc").unwrap().symbol, "WETH");
    }
    service.remove_asset("0xabc");
    for i in 0..2 {
        assert!(service.snapshot_of(i).is_empty());
    }
}
