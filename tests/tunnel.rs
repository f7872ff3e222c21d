use tracing_tunnel::receiver::{
    HostAction, LocalSpans, PersistedMetadata, PersistedSpans, ReceiveError, SpanData,
    TracingEventReceiver,
};
use tracing_tunnel::sender::SenderState;
use tracing_tunnel::types::{create_call_site, CallSiteKind, TracingEvent, TracingLevel};
use tracing_tunnel::value::TracedValue;
use tracing_tunnel::values::TracedValues;

fn receiver_with_call_site() -> TracingEventReceiver {
    let mut receiver =
        TracingEventReceiver::new(PersistedMetadata::new(), PersistedSpans::new(), LocalSpans::new());
    let actions = receiver
        .try_receive(TracingEvent::NewCallSite {
            id: 0,
            data: create_call_site(vec!["i".to_owned()]),
        })
        .unwrap();
    assert!(actions.is_empty());
    receiver
}

fn one_value(name: &str, value: i64) -> TracedValues {
    TracedValues::from_entries(vec![(name.to_owned(), TracedValue::from(value))])
}

#[test]
fn span_lifecycle_leaves_tables_empty() {
    let mut receiver = receiver_with_call_site();
    let actions = receiver
        .try_receive(TracingEvent::NewSpan {
            id: 0,
            parent_id: None,
            metadata_id: 0,
            values: one_value("i", 42),
        })
        .unwrap();
    match actions.as_slice() {
        [HostAction::CreateSpan { id: 0, metadata_id: 0, parent_id: None, values }] => {
            assert!(*values.get("i").unwrap() == 42_i64);
        }
        other => panic!("unexpected actions: {other:?}"),
    }
    let actions = receiver.try_receive(TracingEvent::SpanEntered { id: 0 }).unwrap();
    assert!(matches!(actions.as_slice(), [HostAction::EnterSpan { id: 0 }]));
    let actions = receiver.try_receive(TracingEvent::SpanExited { id: 0 }).unwrap();
    assert!(matches!(actions.as_slice(), [HostAction::ExitSpan { id: 0 }]));
    assert!(receiver.local_spans().contains(0));
    let actions = receiver.try_receive(TracingEvent::SpanDropped { id: 0 }).unwrap();
    assert!(matches!(actions.as_slice(), [HostAction::CloseSpan { id: 0 }]));
    assert!(receiver.spans().is_empty());
    assert!(receiver.local_spans().is_empty());
}

#[test]
fn cloned_span_closes_on_last_drop() {
    let mut receiver = receiver_with_call_site();
    receiver.receive(TracingEvent::NewSpan {
        id: 5,
        parent_id: None,
        metadata_id: 0,
        values: TracedValues::new(),
    });
    assert!(receiver.try_receive(TracingEvent::SpanCloned { id: 5 }).unwrap().is_empty());
    assert_eq!(receiver.spans().get(5).unwrap().ref_count, 2);
    assert!(receiver.try_receive(TracingEvent::SpanDropped { id: 5 }).unwrap().is_empty());
    assert!(receiver.spans().contains(5));
    let actions = receiver.try_receive(TracingEvent::SpanDropped { id: 5 }).unwrap();
    assert!(matches!(actions.as_slice(), [HostAction::CloseSpan { id: 5 }]));
    assert!(!receiver.spans().contains(5));
}

#[test]
fn restored_ancestors_are_reified_root_first() {
    let mut metadata = PersistedMetadata::new();
    metadata.insert(0, create_call_site(vec!["i".to_owned()]));
    let mut spans = PersistedSpans::new();
    for (id, parent_id) in [(1, None), (2, Some(1)), (3, Some(2))] {
        spans.insert(
            id,
            SpanData { metadata_id: 0, parent_id, ref_count: 1, values: one_value("i", id as i64) },
        );
    }
    let mut receiver = TracingEventReceiver::new(metadata, spans, LocalSpans::new());
    let actions = receiver.try_receive(TracingEvent::SpanEntered { id: 3 }).unwrap();
    let created: Vec<u64> = actions
        .iter()
        .filter_map(|a| match a {
            HostAction::CreateSpan { id, values, .. } => {
                assert!(*values.get("i").unwrap() == *id as i64);
                Some(*id)
            }
            _ => None,
        })
        .collect();
    assert_eq!(created, [1, 2, 3]);
    assert!(matches!(actions.last(), Some(HostAction::EnterSpan { id: 3 })));
    for id in 1..=3 {
        assert!(receiver.local_spans().contains(id));
    }

    let actions = receiver
        .try_receive(TracingEvent::NewEvent {
            metadata_id: 0,
            parent: Some(2),
            values: TracedValues::new(),
        })
        .unwrap();
    assert!(matches!(
        actions.as_slice(),
        [HostAction::EmitEvent { metadata_id: 0, parent: Some(2), .. }]
    ));
}

#[test]
fn recorded_values_merge_and_reach_reified_spans() {
    let mut receiver = receiver_with_call_site();
    receiver.receive(TracingEvent::NewSpan {
        id: 7,
        parent_id: None,
        metadata_id: 0,
        values: one_value("i", 1),
    });
    let actions = receiver
        .try_receive(TracingEvent::ValuesRecorded { id: 7, values: one_value("i", 2) })
        .unwrap();
    assert!(matches!(actions.as_slice(), [HostAction::RecordValues { id: 7, .. }]));
    assert!(*receiver.spans().get(7).unwrap().values.get("i").unwrap() == 2_i64);

    let too_many = TracedValues::from_entries(
        (0..33).map(|i| (format!("field{i}"), TracedValue::from(i as i64))).collect(),
    );
    let err = receiver
        .try_receive(TracingEvent::ValuesRecorded { id: 7, values: too_many })
        .unwrap_err();
    assert_eq!(err, ReceiveError::TooManyValues { actual: 33, max: 32 });
    assert_eq!(receiver.spans().get(7).unwrap().values.len(), 1);
}

#[test]
fn persisting_and_restoring_matches_a_single_session() {
    let events = || {
        vec![
            TracingEvent::NewCallSite { id: 0, data: create_call_site(vec!["i".to_owned()]) },
            TracingEvent::NewSpan { id: 1, parent_id: None, metadata_id: 0, values: TracedValues::new() },
            TracingEvent::SpanEntered { id: 1 },
            TracingEvent::NewSpan { id: 2, parent_id: Some(1), metadata_id: 0, values: one_value("i", 1) },
            TracingEvent::ValuesRecorded { id: 2, values: one_value("i", 9) },
            TracingEvent::SpanDropped { id: 2 },
            TracingEvent::SpanExited { id: 1 },
        ]
    };
    let new_receiver = || {
        TracingEventReceiver::new(PersistedMetadata::new(), PersistedSpans::new(), LocalSpans::new())
    };

    let mut whole = new_receiver();
    for event in events() {
        whole.receive(event);
    }

    for split in 0..=events().len() {
        let mut first = new_receiver();
        let mut rest = events();
        let tail = rest.split_off(split);
        for event in rest {
            first.receive(event);
        }
        let mut metadata = PersistedMetadata::new();
        first.persist_metadata(&mut metadata);
        let spans = first.persist_spans();
        let mut second = TracingEventReceiver::new(metadata, spans, LocalSpans::new());
        for event in tail {
            second.receive(event);
        }
        assert_eq!(second.metadata().len(), whole.metadata().len());
        assert_eq!(second.spans().len(), whole.spans().len());
        assert!(second.spans().contains(1));
        assert_eq!(second.spans().get(1).unwrap().ref_count, 1);
        assert!(!second.spans().contains(2));
    }
}

#[test]
fn unknown_metadata_for_events() {
    let mut receiver = receiver_with_call_site();
    let err = receiver
        .try_receive(TracingEvent::NewEvent { metadata_id: 9, parent: None, values: TracedValues::new() })
        .unwrap_err();
    assert_eq!(err, ReceiveError::UnknownMetadataId(9));
    let err = receiver.try_receive(TracingEvent::SpanCloned { id: 4 }).unwrap_err();
    assert_eq!(err, ReceiveError::UnknownSpanId(4));
}

#[test]
fn call_site_data_fixture() {
    let data = create_call_site(vec!["i".to_owned()]);
    assert_eq!(data.kind, CallSiteKind::Span);
    assert_eq!(data.level, TracingLevel::Error);
    assert_eq!(data.name, "test");
    assert_eq!(data.line, Some(42));
    assert_eq!(data.fields, ["i"]);
}

#[test]
fn sender_registers_call_sites_once() {
    let mut sender = SenderState::new();
    let first = sender.register_call_site(3, create_call_site(Vec::new()));
    assert!(matches!(first, Some(TracingEvent::NewCallSite { id: 3, .. })));
    assert!(sender.register_call_site(3, create_call_site(Vec::new())).is_none());
    assert!(sender.is_registered(3));
    assert!(!sender.is_registered(4));
}

#[test]
fn sender_balances_spans_and_drops_on_last_reference() {
    let mut sender = SenderState::new();
    sender.register_call_site(0, create_call_site(vec!["i".to_owned()]));
    let mut stream = Vec::new();
    let (outer, event) = sender.new_span(0, None, TracedValues::new()).unwrap();
    stream.push(event);
    let (inner, event) = sender.new_span(0, Some(outer), one_value("i", 1)).unwrap();
    assert!(inner > outer);
    assert!(matches!(event, TracingEvent::NewSpan { parent_id: Some(p), .. } if p == outer));
    stream.push(event);
    stream.push(sender.enter(inner).unwrap());
    stream.push(sender.record(inner, one_value("i", 2)).unwrap());
    stream.push(sender.new_event(0, Some(inner), TracedValues::new()));
    stream.push(sender.exit(inner).unwrap());

    assert!(sender.clone_span(inner));
    assert!(sender.drop_span(inner).is_none());
    stream.push(sender.drop_span(inner).unwrap());
    assert!(sender.enter(inner).is_none());
    let orphan = sender.new_event(0, Some(inner), TracedValues::new());
    assert!(matches!(orphan, TracingEvent::NewEvent { parent: None, .. }));
    stream.push(orphan);
    stream.push(sender.drop_span(outer).unwrap());
    assert!(sender.is_idle());

    for id in [outer, inner] {
        let created = stream
            .iter()
            .filter(|e| matches!(e, TracingEvent::NewSpan { id: x, .. } if *x == id))
            .count();
        let dropped = stream
            .iter()
            .filter(|e| matches!(e, TracingEvent::SpanDropped { id: x } if *x == id))
            .count();
        assert_eq!((created, dropped), (1, 1));
    }
    assert!(!stream.iter().any(|e| matches!(e, TracingEvent::SpanCloned { .. })));
}

#[test]
fn sender_then_receiver_reproduces_the_spans() {
    let mut sender = SenderState::new();
    let mut receiver =
        TracingEventReceiver::new(PersistedMetadata::new(), PersistedSpans::new(), LocalSpans::new());
    let mut stream = Vec::new();
    stream.extend(sender.register_call_site(0, create_call_site(vec!["i".to_owned()])));
    let (span, event) = sender.new_span(0, None, one_value("i", 42)).unwrap();
    stream.push(event);
    stream.push(sender.enter(span).unwrap());
    for event in stream.drain(..) {
        receiver.try_receive(event).unwrap();
    }
    assert!(*receiver.spans().get(span).unwrap().values.get("i").unwrap() == 42_i64);
    stream.push(sender.exit(span).unwrap());
    stream.push(sender.drop_span(span).unwrap());
    for event in stream {
        receiver.try_receive(event).unwrap();
    }
    assert!(receiver.spans().is_empty());
}

#[test]
fn event_fields_keep_declaration_order() {
    let mut sender = SenderState::new();
    let mut receiver =
        TracingEventReceiver::new(PersistedMetadata::new(), PersistedSpans::new(), LocalSpans::new());
    let fields = vec!["message".to_owned(), "i".to_owned(), "current".to_owned()];
    receiver.try_receive(sender.register_call_site(1, create_call_site(fields)).unwrap()).unwrap();
    for i in 0..3_u64 {
        let values = TracedValues::from_entries(vec![
            ("message".to_owned(), TracedValue::debug("performing iteration".to_owned())),
            ("i".to_owned(), TracedValue::from(i)),
            ("current".to_owned(), TracedValue::from(i * 2)),
        ]);
        let event = sender.new_event(1, None, values);
        let actions = receiver.try_receive(event).unwrap();
        match actions.as_slice() {
            [HostAction::EmitEvent { values, .. }] => {
                let names: Vec<&str> = (0..values.len()).map(|k| values.entry(k).0).collect();
                assert_eq!(names, ["message", "i", "current"]);
                assert!(matches!(values.entry(0).1, TracedValue::Object(_)));
                assert!(matches!(values.entry(1).1, TracedValue::UInt(_)));
                assert!(matches!(values.entry(2).1, TracedValue::UInt(_)));
            }
            other => panic!("unexpected actions: {other:?}"),
        }
    }
}

#[test]
fn sender_exits_only_entered_spans() {
    let mut sender = SenderState::new();
    sender.register_call_site(0, create_call_site(Vec::new()));
    let (span, _) = sender.new_span(0, None, TracedValues::new()).unwrap();
    assert!(sender.exit(span).is_none());
    assert!(matches!(sender.enter(span), Some(TracingEvent::SpanEntered { id }) if id == span));
    assert!(matches!(sender.enter(span), Some(TracingEvent::SpanEntered { .. })));
    assert!(sender.exit(span).is_some());
    assert!(sender.exit(span).is_some());
    assert!(sender.exit(span).is_none());
    assert!(sender.exit(span + 100).is_none());
}

#[test]
fn re_registered_call_site_keeps_its_data() {
    let mut receiver = receiver_with_call_site();
    let mut other = create_call_site(Vec::new());
    other.name = "other".to_owned();
    receiver.receive(TracingEvent::NewCallSite { id: 0, data: other });
    assert_eq!(receiver.metadata().get(0).unwrap().name, "test");
    assert_eq!(receiver.metadata().len(), 1);
}

#[test]
fn visiting_a_child_keeps_its_restored_parent() {
    let mut metadata = PersistedMetadata::new();
    metadata.insert(0, create_call_site(Vec::new()));
    let mut spans = PersistedSpans::new();
    spans.insert(7, SpanData { metadata_id: 0, parent_id: None, ref_count: 1, values: TracedValues::new() });
    spans.insert(1, SpanData { metadata_id: 0, parent_id: Some(7), ref_count: 1, values: TracedValues::new() });
    let mut receiver = TracingEventReceiver::new(metadata, spans, LocalSpans::new());
    let actions = tracing_tunnel::receiver::visit_and_drop_span(&mut receiver, 1);
    let created: Vec<u64> = actions
        .iter()
        .filter_map(|a| match a {
            HostAction::CreateSpan { id, .. } => Some(*id),
            _ => None,
        })
        .collect();
    assert_eq!(created, [7, 1]);
    assert_eq!(actions.len(), 5);
    assert!(!receiver.spans().contains(1));
    assert!(!receiver.local_spans().contains(1));
    assert!(receiver.spans().contains(7));
    assert!(receiver.local_spans().contains(7));
    assert_eq!(receiver.spans().get(7).unwrap().ref_count, 1);
}

#[test]
fn call_site_fixture_texts() {
    let data = create_call_site(Vec::new());
    assert_eq!(data.target, "tracing_tunnel");
    assert_eq!(data.module_name.as_deref(), Some("receiver::tests"));
    assert_eq!(data.file.as_deref(), Some("tests"));
}
