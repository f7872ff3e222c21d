use tracing_tunnel::capture::Storage;
use tracing_tunnel::predicates::{
    field, message, EquivPredicate, Predicate, Scalar, ScanError, ScanExt, StrMatcher,
    ValueMatcher,
};
use tracing_tunnel::types::{create_call_site, CallSiteData, CallSiteKind, TracingLevel};
use tracing_tunnel::value::TracedValue;
use tracing_tunnel::values::TracedValues;

fn site(name: &str, kind: CallSiteKind, level: TracingLevel) -> CallSiteData {
    let mut data = create_call_site(Vec::new());
    data.name = name.to_owned();
    data.kind = kind;
    data.level = level;
    data
}

fn values(entries: Vec<(&str, TracedValue)>) -> TracedValues {
    TracedValues::from_entries(entries.into_iter().map(|(n, v)| (n.to_owned(), v)).collect())
}

fn int_field(name: &str, value: i128) -> Predicate {
    Predicate::from(field(name, ValueMatcher::Equiv(EquivPredicate::new(Scalar::Int(value)))))
}

/// A span `test` with `num = 42`, entered once, holding a warning, then closed.
fn captured_disturbance() -> Storage {
    let mut storage = Storage::new();
    let span = storage.on_new_span(
        site("test", CallSiteKind::Span, TracingLevel::Info),
        values(vec![("num", TracedValue::from(42_i64))]),
        None,
    );
    storage.on_enter(span);
    storage.on_event(
        site("event", CallSiteKind::Event, TracingLevel::Warn),
        values(vec![("message", TracedValue::debug("disturbance".to_owned()))]),
        Some(span),
    );
    storage.on_exit(span);
    storage.on_close(span);
    storage
}

#[test]
fn capture_round_trip() {
    let storage = captured_disturbance();
    assert_eq!(storage.span_count(), 1);
    let spans = storage.all_spans();
    let span = spans[0];
    assert!(*span.value("num").unwrap() == 42_i64);
    assert_eq!(span.stats().entered, 1);
    assert_eq!(span.stats().exited, 1);
    assert!(span.stats().is_closed);

    let events = span.events();
    assert_eq!(events.len(), 1);
    let event = events[0];
    assert_eq!(event.metadata().level, TracingLevel::Warn);
    assert_eq!(event.message(), Some("disturbance"));
    assert_eq!(event.parent().unwrap().index(), span.index());
}

#[test]
fn closed_spans_take_no_more_writes() {
    let mut storage = captured_disturbance();
    storage.on_enter(0);
    storage.on_exit(0);
    storage.on_record(0, &values(vec![("num", TracedValue::from(7_i64))]));
    let span = storage.span(0);
    assert_eq!(span.stats().entered, 1);
    assert_eq!(span.stats().exited, 1);
    assert!(*span.value("num").unwrap() == 42_i64);
}

#[test]
fn exits_never_outnumber_entries() {
    let mut storage = Storage::new();
    let span = storage.on_new_span(site("s", CallSiteKind::Span, TracingLevel::Info), TracedValues::new(), None);
    storage.on_exit(span);
    assert_eq!(storage.span(span).stats().exited, 0);
    storage.on_enter(span);
    storage.on_enter(span);
    storage.on_exit(span);
    let stats = storage.span(span).stats();
    assert_eq!((stats.entered, stats.exited, stats.is_closed), (2, 1, false));
    storage.on_record(span, &values(vec![("late", TracedValue::from(true))]));
    assert!(*storage.span(span).value("late").unwrap() == true);
}

#[test]
fn tree_links_follow_capture_order() {
    let mut storage = Storage::new();
    let span_site = || site("s", CallSiteKind::Span, TracingLevel::Debug);
    let root = storage.on_new_span(span_site(), TracedValues::new(), None);
    let child = storage.on_new_span(span_site(), TracedValues::new(), Some(root));
    let grandchild = storage.on_new_span(span_site(), TracedValues::new(), Some(child));
    let second_child = storage.on_new_span(span_site(), TracedValues::new(), Some(root));
    let other_root = storage.on_new_span(span_site(), TracedValues::new(), None);
    let event = storage.on_event(
        site("e", CallSiteKind::Event, TracingLevel::Info),
        TracedValues::new(),
        Some(grandchild),
    );
    storage.on_event(site("e", CallSiteKind::Event, TracingLevel::Info), TracedValues::new(), None);

    let roots: Vec<usize> = storage.root_spans().iter().map(|s| s.index()).collect();
    assert_eq!(roots, [root, other_root]);
    let children: Vec<usize> = storage.span(root).children().iter().map(|s| s.index()).collect();
    assert_eq!(children, [child, second_child]);
    let ancestors: Vec<usize> =
        storage.span(grandchild).ancestors().iter().map(|s| s.index()).collect();
    assert_eq!(ancestors, [child, root]);
    let event_ancestors: Vec<usize> =
        storage.event(event).ancestors().iter().map(|s| s.index()).collect();
    assert_eq!(event_ancestors, [grandchild, child, root]);
    assert!(storage.span(root).parent().is_none());
    assert_eq!(storage.event_count(), 2);
    assert!(storage.all_events()[1].parent().is_none());
}

#[test]
fn scanners_find_single_first_and_last() {
    let mut storage = Storage::new();
    for i in 0..4_i64 {
        storage.on_new_span(
            site("s", CallSiteKind::Span, TracingLevel::Info),
            values(vec![("i", TracedValue::from(i)), ("even", TracedValue::from(i % 2 == 0))]),
            None,
        );
    }
    let even = || Predicate::from(field("even", ValueMatcher::Equiv(EquivPredicate::new(Scalar::Bool(true)))));

    let found = (&storage).scan_spans().try_single(&int_field("i", 2)).unwrap();
    assert_eq!(found.index(), 2);
    assert_eq!((&storage).scan_spans().try_single(&even()).unwrap_err(), ScanError::MultipleMatches { first: 0, second: 2 });
    assert_eq!((&storage).scan_spans().try_single(&int_field("i", 9)).unwrap_err(), ScanError::NoMatch);
    assert_eq!((&storage).scan_spans().try_first(&even()).unwrap().index(), 0);
    assert_eq!((&storage).scan_spans().try_last(&even()).unwrap().index(), 2);
    assert_eq!((&storage).scan_spans().try_last(&int_field("i", 9)).unwrap_err(), ScanError::NoMatch);
    assert_eq!((&storage).scan_spans().try_all(&even()).unwrap_err(), ScanError::Mismatch { index: 1 });
    assert!((&storage).scan_spans().try_all(&even().or(even().not())).is_ok());
    assert_eq!((&storage).scan_spans().try_none(&even()).unwrap_err(), ScanError::UnexpectedMatch { index: 0 });
    assert!((&storage).scan_spans().try_none(&even().and(int_field("i", 1))).is_ok());
    assert!((&storage).scan_events().try_none(&even()).is_ok());
    assert_eq!((&storage).scan_spans().single(&int_field("i", 3)).index(), 3);
    assert_eq!((&storage).scan_spans().first(&even()).index(), 0);
    assert_eq!((&storage).scan_spans().last(&even()).index(), 2);
    (&storage).scan_spans().all(&even().or(even().not()));
    (&storage).scan_spans().none(&int_field("i", 9));
    assert_eq!((&storage).scan_spans().iter().len(), 4);
}

#[test]
fn message_and_text_predicates() {
    let storage = captured_disturbance();
    let span = storage.span(0);
    let events = span.scan_events();
    let hit = events.try_single(&Predicate::from(message(StrMatcher::Contains("turb".to_owned()))));
    assert_eq!(hit.unwrap().index(), 0);
    let miss = span.scan_events().try_first(&Predicate::from(message(StrMatcher::Equals("turb".to_owned()))));
    assert_eq!(miss.unwrap_err(), ScanError::NoMatch);
    assert!(span
        .scan_events()
        .try_single(&Predicate::from(message(StrMatcher::StartsWith("dist".to_owned()))))
        .is_ok());
    assert!(span
        .scan_events()
        .try_single(&Predicate::from(message(StrMatcher::EndsWith("bance".to_owned()))))
        .is_ok());
    assert!(span.scan_spans().try_none(&int_field("num", 42)).is_ok());

    let text = values(vec![("name", TracedValue::from("tunnel"))]);
    let p = field("name", ValueMatcher::Text(StrMatcher::Contains("nne".to_owned())));
    assert!(p.eval(&text));
    let p = field("name", ValueMatcher::Equiv(EquivPredicate::new(Scalar::Str("tunnel".to_owned()))));
    assert!(p.eval(&text));
    let p = field("name", ValueMatcher::Debug(StrMatcher::Contains("nne".to_owned())));
    assert!(!p.eval(&text));
    let p = field("name", ValueMatcher::Always);
    assert!(p.eval(&text));
    assert!(!field("other", ValueMatcher::Always).eval(&text));
}

#[test]
fn cases_explain_outcomes() {
    let vals = values(vec![("num", TracedValue::from(42_i64))]);
    let p = field("num", ValueMatcher::Equiv(EquivPredicate::new(Scalar::Int(42))));
    assert!(p.find_case(false, &vals).is_none());
    let case = p.find_case(true, &vals).unwrap();
    assert!(case.result);
    assert_eq!(case.children.len(), 1);
    assert_eq!(case.children[0].products[0].name, "var");
    assert!(*case.children[0].products[0].value.as_ref().unwrap() == 42_i64);

    let missing = field("gone", ValueMatcher::Always);
    assert!(missing.find_case(true, &vals).is_none());
    let case = missing.find_case(false, &vals).unwrap();
    assert_eq!(case.products[0].name, "fields.gone");
    assert!(case.products[0].value.is_none());

    let m = message(StrMatcher::Equals("x".to_owned()));
    let case = m.find_case(false, &vals).unwrap();
    assert_eq!(case.products[0].name, "message");

    let both = int_field("num", 42).and(int_field("num", 1));
    let case = both.find_case(false, &vals).unwrap();
    assert_eq!(case.children.len(), 1);
    assert!(both.find_case(true, &vals).is_none());
    let either = int_field("num", 42).or(int_field("num", 1));
    assert_eq!(either.find_case(true, &vals).unwrap().children.len(), 1);
    let negated = int_field("num", 1).not();
    assert!(negated.find_case(true, &vals).is_some());
    let eq = EquivPredicate::new(Scalar::UInt(3));
    assert!(eq.find_case(false, &TracedValue::from(3_i64)).is_some());
    assert!(eq.eval(&TracedValue::from(3_u64)));
}

#[test]
fn scalars_stand_for_equality() {
    let vals = values(vec![
        ("num", TracedValue::from(42_i64)),
        ("big", TracedValue::from(7_u64)),
        ("flag", TracedValue::from(false)),
    ]);
    assert!(field("num", 42_i64).eval(&vals));
    assert!(field("num", 42_i128).eval(&vals));
    assert!(!field("num", 42_u64).eval(&vals));
    assert!(field("big", 7_u64).eval(&vals));
    assert!(field("big", 7_u128).eval(&vals));
    assert!(field("flag", false).eval(&vals));
    assert!(!field("flag", true).eval(&vals));
}

#[test]
fn text_scalars_and_scanner_copies() {
    let vals = values(vec![("name", TracedValue::from("tunnel"))]);
    assert!(field("name", "tunnel").eval(&vals));
    assert!(!field("name", "tunnels").eval(&vals));

    let storage = captured_disturbance();
    let scanner = (&storage).scan_spans();
    let copy = scanner.clone();
    assert_eq!(scanner.iter().len(), 1);
    assert_eq!(copy.iter()[0].index(), 0);
}

#[test]
fn predicates_describe_themselves() {
    let p = Predicate::from(field("num", 42_i64))
        .and(Predicate::from(message(StrMatcher::Contains("done".to_owned()))).not());
    assert_eq!(p.describe(), "(fields.num(var == 42) && !(message(contains \"done\")))");
    let q = Predicate::from(field("n", i128::MIN)).or(Predicate::from(field("s", "x")));
    assert_eq!(
        q.describe(),
        "(fields.n(var == -170141183460469231731687303715884105728) || fields.s(var == \"x\"))"
    );
    assert_eq!(Predicate::from(field("b", true)).describe(), "fields.b(var == true)");
    assert_eq!(Predicate::from(field("u", 0_u64)).describe(), "fields.u(var == 0)");
    assert_eq!(
        Predicate::from(field("t", ValueMatcher::Debug(StrMatcher::EndsWith("z".to_owned())))).describe(),
        "fields.t(debug(var) ends with \"z\")"
    );
}

