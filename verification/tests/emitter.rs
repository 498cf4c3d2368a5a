//! Summaries and what the task of an emitter does.
use tracing_throttle::application::emitter::{shutdown_result, TaskEnd};
use tracing_throttle::{
    AnyClock, Duration, EmitterConfig, EmitterConfigError, EmitterEvent, EmitterTask, EventMetadata,
    EventSignature, EventState, FieldMap, Policy, ShardedStorage, ShutdownError, SummaryEmitter,
    SuppressionRegistry, SystemClock,
};

type Registry = SuppressionRegistry<ShardedStorage<EventSignature, EventState>>;

fn registry() -> Registry {
    SuppressionRegistry::new(
        ShardedStorage::new(),
        AnyClock::System(SystemClock::new()),
        Policy::count_based(100).unwrap(),
    )
}

#[test]
fn test_collect_summaries_empty() {
    let emitter = SummaryEmitter::new(registry(), EmitterConfig::default());

    let summaries = emitter.collect_summaries();
    assert!(summaries.is_empty());
}

#[test]
fn test_collect_summaries_with_suppressions() {
    let mut registry = registry();
    let config = EmitterConfig::default();

    // Add some suppressed events
    for i in 0..3 {
        let sig = EventSignature::simple("INFO", &format!("Message {}", i));
        registry.with_event_state(sig, |state, now| {
            // Simulate some suppressions
            for _ in 0..(i + 1) * 5 {
                state.counter.record_suppression(now);
            }
        });
    }

    let emitter = SummaryEmitter::new(registry, config);
    let summaries = emitter.collect_summaries();

    assert_eq!(summaries.len(), 3);

    // Verify counts
    let counts: Vec<usize> = summaries.iter().map(|s| s.count).collect();
    assert!(counts.contains(&6)); // 5 + 1 (initial)
    assert!(counts.contains(&11)); // 10 + 1
    assert!(counts.contains(&16)); // 15 + 1
}

#[test]
fn test_min_count_filtering() {
    let mut registry = registry();
    let config = EmitterConfig::default().with_min_count(10);

    // Add event with low count (below threshold)
    let sig1 = EventSignature::simple("INFO", "Low count");
    registry.with_event_state(sig1, |state, now| {
        for _ in 0..4 {
            state.counter.record_suppression(now);
        }
    });

    // Add event with high count (above threshold)
    let sig2 = EventSignature::simple("INFO", "High count");
    registry.with_event_state(sig2, |state, now| {
        for _ in 0..14 {
            state.counter.record_suppression(now);
        }
    });

    let emitter = SummaryEmitter::new(registry, config);
    let summaries = emitter.collect_summaries();

    // Only the high-count event should be included
    assert_eq!(summaries.len(), 1);
    assert_eq!(summaries[0].count, 15); // 14 + 1 initial
}

#[test]
fn test_emitter_config_zero_interval() {
    let result = EmitterConfig::new(Duration::from_secs(0));
    assert!(matches!(result, Err(EmitterConfigError::ZeroSummaryInterval)));
}

#[test]
fn test_emitter_config_valid_interval() {
    let config = EmitterConfig::new(Duration::from_secs(30)).unwrap();
    assert_eq!(config.interval, Duration::from_secs(30));
    assert_eq!(config.min_count, 1);
}

#[test]
fn errors_can_be_read() {
    assert_eq!(
        EmitterConfigError::ZeroSummaryInterval.to_string(),
        "summary interval must be greater than 0"
    );
}

#[test]
fn summaries_describe_the_event() {
    let mut registry = registry();
    let sig = EventSignature::simple("INFO", "Login");
    registry.with_event_state(sig, |state, now| {
        state.set_metadata(EventMetadata::new(
            "INFO".to_string(),
            "User login successful".to_string(),
            "summaries".to_string(),
            FieldMap::new(),
        ));
        for _ in 0..17 {
            state.counter.record_suppression(now);
        }
    });
    let emitter = SummaryEmitter::new(registry, EmitterConfig::default());
    let summaries = emitter.collect_summaries();
    assert_eq!(summaries.len(), 1);
    assert_eq!(
        summaries[0].format_message(),
        "Suppressed 18 times over 0.00s: [INFO] summaries: User login successful"
    );
}

#[test]
fn a_tick_emits_what_there_is() {
    let mut emitter = SummaryEmitter::new(registry(), EmitterConfig::default());
    let step = emitter.step(EmitterEvent::Tick, false);
    assert!(step.emit.is_none());
    assert!(!step.stop);

    let sig = EventSignature::simple("INFO", "Test");
    emitter.registry_mut().with_event_state(sig, |state, now| {
        state.counter.record_suppression(now);
    });
    let step = emitter.step(EmitterEvent::Tick, false);
    assert_eq!(step.emit.unwrap().len(), 1);
    assert!(!step.stop);
}

#[test]
fn the_signal_stops_the_task() {
    let mut emitter = SummaryEmitter::new(registry(), EmitterConfig::default());
    let sig = EventSignature::simple("INFO", "Test");
    emitter.registry_mut().with_event_state(sig, |state, now| {
        state.counter.record_suppression(now);
    });

    let step = emitter.step(EmitterEvent::Signal(false), true);
    assert!(step.emit.is_none());
    assert!(!step.stop);

    let step = emitter.step(EmitterEvent::Signal(true), false);
    assert!(step.emit.is_none());
    assert!(step.stop);

    let step = emitter.step(EmitterEvent::Signal(true), true);
    assert_eq!(step.emit.unwrap().len(), 1);
    assert!(step.stop);
}

#[test]
fn shutdown_reports_how_the_task_ended() {
    assert_eq!(shutdown_result(true, TaskEnd::Completed), Ok(()));
    assert_eq!(shutdown_result(true, TaskEnd::Panicked), Err(ShutdownError::TaskPanicked));
    assert_eq!(shutdown_result(true, TaskEnd::Cancelled), Err(ShutdownError::TaskCancelled));
    assert_eq!(shutdown_result(true, TaskEnd::TimedOut), Err(ShutdownError::Timeout));
    assert_eq!(shutdown_result(false, TaskEnd::Completed), Err(ShutdownError::SignalFailed));
}

#[test]
fn a_task_emits_until_it_is_stopped() {
    let mut emitter = SummaryEmitter::new(registry(), EmitterConfig::default());
    let mut task = emitter.task(true);
    // There is nothing to report yet.
    assert!(task.handle(emitter.registry(), EmitterEvent::Tick).is_none());

    let sig = EventSignature::simple("INFO", "Test");
    emitter.registry_mut().with_event_state(sig, |state, now| {
        state.counter.record_suppression(now);
    });
    assert_eq!(task.handle(emitter.registry(), EmitterEvent::Tick).unwrap().len(), 1);
    // An emission that went wrong changes nothing.
    assert!(task.handle(emitter.registry(), EmitterEvent::Emitted(false)).is_none());
    assert!(task.is_running());
    assert_eq!(task.handle(emitter.registry(), EmitterEvent::Tick).unwrap().len(), 1);
    assert!(task.handle(emitter.registry(), EmitterEvent::Signal(false)).is_none());
    assert!(task.is_running());

    // Once more at the end, and never again.
    assert_eq!(task.handle(emitter.registry(), EmitterEvent::Signal(true)).unwrap().len(), 1);
    assert!(!task.is_running());
    assert!(task.handle(emitter.registry(), EmitterEvent::Tick).is_none());
    assert!(task.handle(emitter.registry(), EmitterEvent::Signal(true)).is_none());
    assert!(!task.is_running());
}

#[test]
fn a_task_can_stop_without_a_word() {
    let mut emitter = SummaryEmitter::new(registry(), EmitterConfig::default().with_min_count(2));
    let sig = EventSignature::simple("INFO", "Test");
    emitter.registry_mut().with_event_state(sig, |state, now| {
        state.counter.record_suppression(now);
    });
    let mut task = EmitterTask::new(EmitterConfig::default().with_min_count(2), false);
    assert!(task.handle(emitter.registry(), EmitterEvent::Tick).is_some());
    assert!(task.handle(emitter.registry(), EmitterEvent::Signal(true)).is_none());
    assert!(!task.is_running());

    // With too few suppressions there is nothing to say at the end either.
    let mut task = EmitterTask::new(EmitterConfig::default().with_min_count(3), true);
    assert!(task.handle(emitter.registry(), EmitterEvent::Signal(true)).is_none());
}
