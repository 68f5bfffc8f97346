use faceid::recognition::registry_file::{first_object_line, record_line};
use faceid::recognition::scope::{EventId, PersonId, RecognitionContext, RegistrationScope};
use faceid::recognition::store::{Hit, MatchOrigin, Record, VectorStore};
use faceid::types::{Embedding, EMBED_DIM};

fn unit(axis: usize) -> Embedding {
    let mut v = [0f32; EMBED_DIM];
    v[axis] = 1.0;
    Embedding(v.map(f32::to_bits))
}

fn hit(id: u32, similarity: f32) -> Hit {
    Hit { record_id: id, similarity: similarity.to_bits() }
}

fn event(name: &str) -> RecognitionContext {
    RecognitionContext::Event(EventId::from(name))
}

#[test]
fn registrations_get_successive_ids() {
    let mut store = VectorStore::new();
    assert!(store.is_empty());
    let a = store.register(PersonId::from("alice"), unit(0), RegistrationScope::Global, None).unwrap();
    let b = store
        .register(PersonId::from("alice"), unit(1), RegistrationScope::Event(EventId::from("expo")), None)
        .unwrap();
    assert_eq!(a, 0);
    assert_eq!(b, 1);
    assert_eq!(store.len(), 2);
    assert!(!store.is_empty());
    let rec = store.record(b).unwrap();
    assert_eq!(rec.person_id.0, "alice");
    assert!(matches!(&rec.scope, RegistrationScope::Event(e) if e.0 == "expo"));
    assert_eq!(rec.embedding.0[1], 1.0f32.to_bits());
}

#[test]
fn unregister_removes_only_that_record() {
    let mut store = VectorStore::new();
    let a = store.register(PersonId::from("alice"), unit(0), RegistrationScope::Global, None).unwrap();
    let b = store.register(PersonId::from("alice"), unit(1), RegistrationScope::Global, None).unwrap();
    let removed = store.unregister(a).unwrap();
    assert_eq!(removed.id, a);
    assert!(store.record(a).is_none());
    assert!(store.record(b).is_some());
    assert!(matches!(store.unregister(a), Err(faceid::error::FaceError::RecordNotFound(x)) if x == a));
    // ids are not reused after removal
    let c = store.register(PersonId::from("bob"), unit(2), RegistrationScope::Global, None).unwrap();
    assert_eq!(c, 2);
}

#[test]
fn unregister_person_removes_every_scope() {
    let mut store = VectorStore::new();
    store.register(PersonId::from("alice"), unit(0), RegistrationScope::Global, None).unwrap();
    store
        .register(PersonId::from("alice"), unit(1), RegistrationScope::Event(EventId::from("expo")), None)
        .unwrap();
    let bob = store.register(PersonId::from("bob"), unit(2), RegistrationScope::Global, None).unwrap();
    assert_eq!(store.records_for_person(&PersonId::from("alice")).len(), 2);
    let removed = store.unregister_person(&PersonId::from("alice"));
    assert_eq!(removed.len(), 2);
    assert!(removed.iter().all(|r| r.person_id.0 == "alice"));
    assert_eq!(store.len(), 1);
    assert!(store.record(bob).is_some());
    assert_eq!(store.unregister_person(&PersonId::from("alice")).len(), 0);
    assert_eq!(store.all_records().len(), 1);
}

#[test]
fn identify_picks_the_more_similar_registry() {
    let mut store = VectorStore::new();
    let g = store.register(PersonId::from("gina"), unit(0), RegistrationScope::Global, None).unwrap();
    let e = store
        .register(PersonId::from("eve"), unit(1), RegistrationScope::Event(EventId::from("expo")), Some("Eve".into()))
        .unwrap();
    let t = 0.45f32.to_bits();

    let m = store.identify(Some(hit(g, 0.6)), Some(hit(e, 0.9)), &event("expo"), t).unwrap();
    assert_eq!(m.record_id, e);
    assert_eq!(m.person_id.0, "eve");
    assert_eq!(m.label.as_deref(), Some("Eve"));
    assert!(matches!(&m.origin, MatchOrigin::Event(x) if x.0 == "expo"));
    assert_eq!(m.origin.display_string(), "event:expo");
    assert_eq!(f32::from_bits(m.similarity), 0.9);

    // ties go to the global registry
    let m = store.identify(Some(hit(g, 0.7)), Some(hit(e, 0.7)), &event("expo"), t).unwrap();
    assert_eq!(m.record_id, g);
    assert!(matches!(m.origin, MatchOrigin::Global));

    // under GlobalOnly the event answer is never consulted
    let m = store.identify(Some(hit(g, 0.6)), Some(hit(e, 0.9)), &RecognitionContext::GlobalOnly, t).unwrap();
    assert_eq!(m.record_id, g);
    assert_eq!(m.origin.display_string(), "global");
}

#[test]
fn identify_applies_the_threshold() {
    let mut store = VectorStore::new();
    let g = store.register(PersonId::from("gina"), unit(0), RegistrationScope::Global, None).unwrap();
    let t = 0.45f32.to_bits();
    assert!(store.identify(Some(hit(g, 0.44)), None, &RecognitionContext::GlobalOnly, t).is_none());
    assert!(store.identify(Some(hit(g, 0.45)), None, &RecognitionContext::GlobalOnly, t).is_some());
    assert!(store.identify(None, None, &RecognitionContext::GlobalOnly, t).is_none());
    // a hit on a record that is gone is not reported
    assert!(store.identify(Some(hit(99, 0.9)), None, &RecognitionContext::GlobalOnly, t).is_none());
}

#[test]
fn event_only_person_is_invisible_elsewhere() {
    let mut store = VectorStore::new();
    let e = store
        .register(PersonId::from("eve"), unit(1), RegistrationScope::Event(EventId::from("expo-2026")), None)
        .unwrap();
    let t = 0.45f32.to_bits();
    // the event index only answers under its own event
    assert!(store.identify(None, Some(hit(e, 0.99)), &RecognitionContext::GlobalOnly, t).is_none());
    let m = store.identify(None, Some(hit(e, 0.99)), &event("expo-2026"), t).unwrap();
    assert_eq!(m.person_id.0, "eve");
}

#[test]
fn identify_top_k_ranks_best_first() {
    let mut store = VectorStore::new();
    let a = store.register(PersonId::from("a"), unit(0), RegistrationScope::Global, None).unwrap();
    let b = store.register(PersonId::from("b"), unit(1), RegistrationScope::Global, None).unwrap();
    let c = store
        .register(PersonId::from("c"), unit(2), RegistrationScope::Event(EventId::from("expo")), None)
        .unwrap();
    let global = vec![hit(a, 0.8), hit(b, 0.3)];
    let events = vec![hit(c, 0.5)];
    let all = store.identify_top_k(&global, &events, &event("expo"), 10);
    let ids: Vec<u32> = all.iter().map(|m| m.record_id).collect();
    assert_eq!(ids, vec![a, c, b]);
    let top2 = store.identify_top_k(&global, &events, &event("expo"), 2);
    let ids: Vec<u32> = top2.iter().map(|m| m.record_id).collect();
    assert_eq!(ids, vec![a, c]);
    // not threshold-filtered, and the event answers are ignored under GlobalOnly
    let glob = store.identify_top_k(&global, &events, &RecognitionContext::GlobalOnly, 10);
    let ids: Vec<u32> = glob.iter().map(|m| m.record_id).collect();
    assert_eq!(ids, vec![a, b]);
    assert!(store.identify_top_k(&global, &events, &event("expo"), 0).is_empty());
}

#[test]
fn identify_top_k_keeps_order_of_equal_scores() {
    let mut store = VectorStore::new();
    let a = store.register(PersonId::from("a"), unit(0), RegistrationScope::Global, None).unwrap();
    let b = store.register(PersonId::from("b"), unit(1), RegistrationScope::Global, None).unwrap();
    let c = store.register(PersonId::from("c"), unit(2), RegistrationScope::Global, None).unwrap();
    let global = vec![hit(b, 0.5), hit(a, 0.5), hit(c, 0.7)];
    let ids: Vec<u32> = store
        .identify_top_k(&global, &vec![], &RecognitionContext::GlobalOnly, 3)
        .iter()
        .map(|m| m.record_id)
        .collect();
    assert_eq!(ids, vec![c, b, a]);
}

fn record(id: u32, person: &str, scope: RegistrationScope, axis: usize) -> Record {
    Record {
        id,
        person_id: PersonId::from(person),
        scope,
        embedding: unit(axis),
        label: Some(person.to_uppercase()),
        registered_at_unix_ms: 1000 + id as u64,
    }
}

#[test]
fn loaded_records_are_found_and_ids_move_past_them() {
    let mut store = VectorStore::new();
    store.insert_record(record(1, "alice", RegistrationScope::Global, 0));
    store.insert_record(record(2, "bob", RegistrationScope::Event(EventId::from("expo-2026")), 1));
    assert_eq!(store.len(), 2);
    let t = 0.5f32.to_bits();
    let alice = store.identify(Some(hit(1, 1.0)), None, &RecognitionContext::GlobalOnly, t).unwrap();
    assert_eq!(alice.person_id.0, "alice");
    let bob = store.identify(None, Some(hit(2, 1.0)), &event("expo-2026"), t).unwrap();
    assert_eq!(bob.person_id.0, "bob");
    let next = store.register(PersonId::from("carol"), unit(2), RegistrationScope::Global, None).unwrap();
    assert_eq!(next, 3);
}

#[test]
fn rebuild_skips_refused_points_but_moves_ids_past_them() {
    let store = VectorStore::rebuild_from_records(vec![
        (record(4, "a", RegistrationScope::Global, 0), true),
        (record(9, "b", RegistrationScope::Global, 1), false),
    ]);
    assert_eq!(store.len(), 1);
    assert!(store.record(4).is_some());
    assert!(store.record(9).is_none());
    let mut store = store;
    let id = store.register(PersonId::from("c"), unit(2), RegistrationScope::Global, None).unwrap();
    assert_eq!(id, 10);
    let empty = VectorStore::rebuild_from_records(vec![]);
    assert!(empty.is_empty());
}

#[test]
fn exhausted_id_space_refuses_registration() {
    let mut store = VectorStore::new();
    store.insert_record(record(u32::MAX, "last", RegistrationScope::Global, 0));
    let r = store.register(PersonId::from("x"), unit(1), RegistrationScope::Global, None);
    assert!(matches!(r, Err(faceid::error::FaceError::StoreExhausted)));
    assert_eq!(store.len(), 1);
}

#[test]
fn scope_display_and_context_event() {
    assert_eq!(RegistrationScope::Global.display_string(), "global");
    assert_eq!(RegistrationScope::Event(EventId::from("expo")).display_string(), "event:expo");
    assert!(RecognitionContext::GlobalOnly.event().is_none());
    assert_eq!(event("expo").event().unwrap().0, "expo");
    assert!(matches!(RecognitionContext::default(), RecognitionContext::GlobalOnly));
    assert_eq!(EventId::from(String::from("x")).display_string(), "x");
    assert_eq!(PersonId::from(String::from("p")).display_string(), "p");
}

#[test]
fn registry_file_first_line_decides_the_format() {
    assert_eq!(first_object_line("  {\"id\":1}\n").as_deref(), Some("{\"id\":1}"));
    assert_eq!(first_object_line("{\"format_version\":1,\"records\":[]}\r\n").as_deref(), Some("{\"format_version\":1,\"records\":[]}"));
    assert_eq!(first_object_line("[1,2,3]\n"), None);
    assert_eq!(first_object_line("\n"), None);
    assert_eq!(first_object_line(""), None);
}

#[test]
fn registry_file_blank_lines_are_skipped() {
    assert_eq!(record_line("\t{\"id\":2} ").as_deref(), Some("{\"id\":2}"));
    assert_eq!(record_line("   "), None);
    assert_eq!(record_line(""), None);
    assert_eq!(record_line("not json"), Some("not json".to_string()));
}

#[test]
fn scopes_route_to_their_index() {
    assert!(RegistrationScope::Global.index_event().is_none());
    let scope = RegistrationScope::Event(EventId::from("expo"));
    assert_eq!(scope.index_event().map(|e| e.0.as_str()), Some("expo"));
}

#[test]
fn identify_agrees_with_the_top_match() {
    let mut store = VectorStore::new();
    let g = store.register(PersonId::from("alice"), unit(0), RegistrationScope::Global, None).unwrap();
    let e = store
        .register(PersonId::from("bob"), unit(1), RegistrationScope::Event(EventId::from("expo")), None)
        .unwrap();
    let global = vec![hit(g, 0.7)];
    let events = vec![hit(e, 0.8)];
    let ctx = event("expo");
    let top = store.identify_top_k(&global, &events, &ctx, 1);
    let best = store.identify(global.first().copied(), events.first().copied(), &ctx, 0.5f32.to_bits()).unwrap();
    assert_eq!(top.len(), 1);
    assert_eq!(top[0].record_id, best.record_id);
    assert_eq!(best.record_id, e);
    assert!(store.identify(global.first().copied(), events.first().copied(), &ctx, 0.9f32.to_bits()).is_none());
}
