use tracing_tunnel::receiver::{
    visit_and_drop_span, HostAction, LocalSpans, PersistedMetadata, PersistedSpans,
    ReceiveError, SpanData, TracingEventReceiver,
};
use tracing_tunnel::types::{create_call_site, TracingEvent};
use tracing_tunnel::value::TracedValue;
use tracing_tunnel::values::TracedValues;

fn call_site_data() -> tracing_tunnel::types::CallSiteData {
    create_call_site(Vec::new())
}

fn empty_receiver() -> TracingEventReceiver {
    TracingEventReceiver::new(PersistedMetadata::new(), PersistedSpans::new(), LocalSpans::new())
}

fn numbered_values(count: usize) -> TracedValues {
    let entries = (0..count)
        .map(|i| (format!("field{i}"), TracedValue::Int(i as i128)))
        .collect();
    TracedValues::from_entries(entries)
}

fn restored_receiver(fields: Vec<String>) -> TracingEventReceiver {
    let mut metadata = PersistedMetadata::new();
    metadata.insert(0, create_call_site(fields));
    let mut spans = PersistedSpans::new();
    spans.insert(
        1,
        SpanData {
            metadata_id: 0,
            parent_id: None,
            ref_count: 1,
            values: TracedValues::new(),
        },
    );
    TracingEventReceiver::new(metadata, spans, LocalSpans::new())
}

#[test]
fn unknown_metadata_error() {
    let event = TracingEvent::NewSpan {
        id: 0,
        parent_id: None,
        metadata_id: 0,
        values: TracedValues::new(),
    };
    let mut receiver = empty_receiver();
    let err = receiver.try_receive(event).unwrap_err();
    assert!(matches!(err, ReceiveError::UnknownMetadataId(0)));
    assert!(receiver.spans().is_empty());
    assert!(receiver.local_spans().is_empty());
}

#[test]
fn unknown_span_errors() {
    let bogus_events = [
        TracingEvent::SpanEntered { id: 1 },
        TracingEvent::SpanExited { id: 1 },
        TracingEvent::SpanDropped { id: 1 },
        TracingEvent::NewSpan {
            id: 42,
            parent_id: Some(1),
            metadata_id: 0,
            values: TracedValues::new(),
        },
        TracingEvent::NewEvent {
            metadata_id: 0,
            parent: Some(1),
            values: TracedValues::new(),
        },
        TracingEvent::ValuesRecorded {
            id: 1,
            values: TracedValues::new(),
        },
    ];

    let mut receiver = empty_receiver();
    receiver.receive(TracingEvent::NewCallSite {
        id: 0,
        data: call_site_data(),
    });
    for bogus_event in bogus_events {
        let err = receiver.try_receive(bogus_event).unwrap_err();
        assert!(matches!(err, ReceiveError::UnknownSpanId(1)));
    }
}

#[test]
fn spans_with_allowed_value_lengths() {
    for values_len in 0..=32 {
        println!("values length: {values_len}");

        let mut receiver = empty_receiver();
        let fields = (0..values_len).map(|i| format!("field{i}")).collect();
        receiver.receive(TracingEvent::NewCallSite {
            id: 0,
            data: create_call_site(fields),
        });

        let actions = receiver
            .try_receive(TracingEvent::NewSpan {
                id: 0,
                parent_id: None,
                metadata_id: 0,
                values: numbered_values(values_len),
            })
            .unwrap();
        assert_eq!(actions.len(), 1);
        let actions = receiver.try_receive(TracingEvent::SpanDropped { id: 0 }).unwrap();
        assert!(matches!(actions.as_slice(), [HostAction::CloseSpan { id: 0 }]));
        assert!(receiver.spans().is_empty());
    }
}

#[test]
fn too_many_values_error() {
    let mut receiver = empty_receiver();
    receiver.receive(TracingEvent::NewCallSite {
        id: 0,
        data: call_site_data(),
    });

    let bogus_event = TracingEvent::NewSpan {
        id: 0,
        parent_id: None,
        metadata_id: 0,
        values: numbered_values(33),
    };
    let err = receiver.try_receive(bogus_event).unwrap_err();
    assert!(matches!(
        err,
        ReceiveError::TooManyValues {
            actual: 33,
            max: 32
        }
    ));
    assert!(receiver.spans().is_empty());
}

#[test]
fn receiver_does_not_panic_on_bogus_field() {
    let events = [
        TracingEvent::NewCallSite {
            id: 0,
            data: call_site_data(),
        },
        TracingEvent::NewSpan {
            id: 0,
            parent_id: None,
            metadata_id: 0,
            values: TracedValues::from_entries(vec![("i".to_owned(), TracedValue::from(42_i64))]),
        },
    ];

    let mut receiver = empty_receiver();
    for event in events {
        receiver.receive(event);
    }
    assert!(receiver.spans().contains(0));
}

#[test]
fn restoring_spans() {
    let mut receiver = restored_receiver(Vec::new());
    let actions = visit_and_drop_span(&mut receiver, 1);
    assert!(matches!(
        actions.as_slice(),
        [
            HostAction::CreateSpan { id: 1, metadata_id: 0, parent_id: None, .. },
            HostAction::EnterSpan { id: 1 },
            HostAction::ExitSpan { id: 1 },
            HostAction::CloseSpan { id: 1 },
        ]
    ));
    assert!(!receiver.spans().contains(1));
    assert!(!receiver.local_spans().contains(1));
}

#[test]
fn restoring_span_after_recording_values() {
    let mut receiver = restored_receiver(vec!["i".to_owned()]);
    receiver.receive(TracingEvent::ValuesRecorded {
        id: 1,
        values: TracedValues::from_entries(vec![("i".to_owned(), TracedValue::from(42_i64))]),
    });
    let span = receiver.spans().get(1).unwrap();
    assert_eq!(*span.values.get("i").unwrap(), 42_i64);
    assert!(!receiver.local_spans().contains(1));

    let actions = visit_and_drop_span(&mut receiver, 1);
    match actions.as_slice() {
        [HostAction::CreateSpan { id: 1, values, .. }, HostAction::EnterSpan { id: 1 }, HostAction::ExitSpan { id: 1 }, HostAction::CloseSpan { id: 1 }] => {
            assert!(*values.get("i").unwrap() == 42_i64);
        }
        other => panic!("unexpected actions: {other:?}"),
    }
    assert!(!receiver.spans().contains(1));
    assert!(!receiver.local_spans().contains(1));
}
