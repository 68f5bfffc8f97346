use faceid::error::FaceError;
use faceid::recognition::scope::{EventId, PersonId, RecognitionContext, RegistrationScope};
use faceid::recognition::store::{MatchOrigin, MatchResult, VectorStore};
use faceid::server::{
    enroll_field, identify_field, identify_response, parse_bool_str, registration_scope_from, registry_stats,
    verify_field, verify_response, EnrollForm, FormField, IdentifyForm, PipelineQueryParams, VerifyForm,
};
use faceid::types::{Embedding, EMBED_DIM};

fn no_query() -> PipelineQueryParams {
    PipelineQueryParams { detect: None, detect_face: None, antispoof: None, liveness: None, mask: None, apply_mask: None }
}

#[test]
fn parse_bool_str_switches_off_only_on_off_words() {
    for off in ["false", "0", "inactive", "no", "off", " FALSE ", "Off\n", "\tNo", "InActive"] {
        assert!(!parse_bool_str(off), "{off:?}");
    }
    for on in ["true", "1", "yes", "", "  ", "nope", "offline", "falsey"] {
        assert!(parse_bool_str(on), "{on:?}");
    }
}

#[test]
fn query_params_prefer_primary_name() {
    let q = PipelineQueryParams {
        detect: Some(false),
        detect_face: Some(true),
        antispoof: None,
        liveness: Some(false),
        mask: None,
        apply_mask: None,
    };
    assert_eq!(q.get_detect(), Some(false));
    assert_eq!(q.get_antispoof(), Some(false));
    assert_eq!(q.get_mask(), None);
    let opts = q.initial_options();
    assert!(!opts.detect_face);
    assert!(!opts.check_liveness);
    assert!(opts.apply_mask);
}

#[test]
fn field_names_and_aliases() {
    assert_eq!(enroll_field("photo"), FormField::Photo);
    assert_eq!(enroll_field("person_id"), FormField::PersonId);
    assert_eq!(enroll_field("scope"), FormField::Scope);
    assert_eq!(enroll_field("label"), FormField::Label);
    assert_eq!(enroll_field("check_detect"), FormField::Detect);
    assert_eq!(enroll_field("liveness"), FormField::Antispoof);
    assert_eq!(enroll_field("mask_face"), FormField::Mask);
    assert_eq!(enroll_field("event"), FormField::Other);
    assert_eq!(identify_field("event"), FormField::Event);
    assert_eq!(identify_field("threshold"), FormField::Threshold);
    assert_eq!(identify_field("use_mask"), FormField::Mask);
    assert_eq!(identify_field("person_id"), FormField::Other);
    assert_eq!(verify_field("photo_a"), FormField::PhotoA);
    assert_eq!(verify_field("photo_b"), FormField::PhotoB);
    assert_eq!(verify_field("photo"), FormField::Other);
    assert_eq!(verify_field("check_liveness"), FormField::Antispoof);
}

#[test]
fn scope_parsing() {
    assert!(matches!(registration_scope_from(""), RegistrationScope::Global));
    assert!(matches!(registration_scope_from("global"), RegistrationScope::Global));
    assert!(matches!(registration_scope_from("expo-2026"), RegistrationScope::Event(e) if e.0 == "expo-2026"));
}

#[test]
fn enroll_form_collects_and_checks_fields() {
    let mut form = EnrollForm::new(&no_query());
    assert_eq!(form.scope, "global");
    form.accept_text(FormField::Scope, "expo".to_string());
    form.accept_text(FormField::Label, "Alice".to_string());
    form.accept_text(FormField::Antispoof, "no".to_string());
    let missing_photo = EnrollForm { photo: None, ..form };
    match missing_photo.finish() {
        Err(FaceError::Config(m)) => assert_eq!(m, "Missing required multipart field 'photo'"),
        _ => panic!("expected a missing photo"),
    }
    let mut form = EnrollForm::new(&no_query());
    form.accept_photo(vec![1, 2, 3]);
    match form.finish() {
        Err(FaceError::Config(m)) => assert_eq!(m, "Missing required multipart field 'person_id'"),
        _ => panic!("expected a missing person"),
    }
    let mut form = EnrollForm::new(&no_query());
    form.accept_photo(vec![1, 2, 3]);
    form.accept_text(FormField::PersonId, "alice".to_string());
    form.accept_text(FormField::Scope, "expo".to_string());
    form.accept_text(FormField::Mask, "off".to_string());
    let plan = form.finish().unwrap();
    assert_eq!(plan.photo, vec![1, 2, 3]);
    assert_eq!(plan.person_id, "alice");
    assert_eq!(plan.scope_raw, "expo");
    assert!(matches!(plan.scope, RegistrationScope::Event(e) if e.0 == "expo"));
    assert!(plan.options.detect_face && plan.options.check_liveness && !plan.options.apply_mask);
}

#[test]
fn identify_form_builds_context_and_threshold() {
    let mut form = IdentifyForm::new(&no_query());
    form.accept_photo(vec![9]);
    form.accept_text(FormField::Event, String::new());
    form.accept_threshold(Some(0.6f32.to_bits()));
    form.accept_threshold(None);
    let plan = form.finish().unwrap();
    assert!(matches!(plan.context, RecognitionContext::GlobalOnly));
    assert_eq!(plan.threshold, Some(0.6f32.to_bits()));

    let mut form = IdentifyForm::new(&no_query());
    form.accept_photo(vec![9]);
    form.accept_text(FormField::Event, "expo".to_string());
    let plan = form.finish().unwrap();
    assert!(matches!(plan.context, RecognitionContext::Event(e) if e.0 == "expo"));

    assert!(matches!(IdentifyForm::new(&no_query()).finish(), Err(FaceError::Config(_))));
}

fn a_match(sim: f32) -> MatchResult {
    MatchResult {
        record_id: 5,
        person_id: PersonId::from("alice"),
        origin: MatchOrigin::Event(EventId::from("expo")),
        similarity: sim.to_bits(),
        label: Some("Alice".to_string()),
    }
}

#[test]
fn identify_response_respects_request_threshold() {
    let r = identify_response(Some(a_match(0.7)), None);
    assert!(r.matched);
    let info = r.match_result.unwrap();
    assert_eq!(info.record_id, 5);
    assert_eq!(info.person_id, "alice");
    assert_eq!(info.origin, "event:expo");
    assert_eq!(info.label.as_deref(), Some("Alice"));
    assert_eq!(f32::from_bits(info.similarity), 0.7);

    let r = identify_response(Some(a_match(0.7)), Some(0.8f32.to_bits()));
    assert!(!r.matched && r.match_result.is_none());
    let r = identify_response(Some(a_match(0.8)), Some(0.8f32.to_bits()));
    assert!(r.matched);
    let r = identify_response(None, None);
    assert!(!r.matched);
}

#[test]
fn verify_form_and_response() {
    let mut form = VerifyForm::new(&no_query());
    form.accept_photo(FormField::PhotoB, vec![2]);
    match form.finish() {
        Err(FaceError::Config(m)) => assert_eq!(m, "Missing required multipart field 'photo_a'"),
        _ => panic!("expected a missing photo_a"),
    }
    let mut form = VerifyForm::new(&no_query());
    form.accept_photo(FormField::PhotoA, vec![1]);
    match form.finish() {
        Err(FaceError::Config(m)) => assert_eq!(m, "Missing required multipart field 'photo_b'"),
        _ => panic!("expected a missing photo_b"),
    }
    let mut form = VerifyForm::new(&no_query());
    form.accept_photo(FormField::PhotoA, vec![1]);
    form.accept_photo(FormField::PhotoB, vec![2]);
    form.accept_text(FormField::Detect, "0".to_string());
    let plan = form.finish().unwrap();
    assert_eq!((plan.photo_a, plan.photo_b), (vec![1], vec![2]));
    assert!(!plan.options.detect_face);

    assert!(verify_response(0.45f32.to_bits()).is_same_person);
    assert!(!verify_response(0.449f32.to_bits()).is_same_person);
    assert!(!verify_response(f32::NAN.to_bits()).is_same_person);
}

#[test]
fn registry_stats_lists_every_record() {
    let mut store = VectorStore::new();
    let e = Embedding([0u32; EMBED_DIM]);
    store.register(PersonId::from("alice"), e, RegistrationScope::Global, Some("A".into())).unwrap();
    store.register(PersonId::from("bob"), e, RegistrationScope::Event(EventId::from("expo")), None).unwrap();
    let stats = registry_stats(&store);
    assert_eq!(stats.total_records, 2);
    let mut rows: Vec<(u32, String, String)> =
        stats.records.iter().map(|r| (r.record_id, r.person_id.clone(), r.scope.clone())).collect();
    rows.sort();
    assert_eq!(
        rows,
        vec![(0, "alice".to_string(), "global".to_string()), (1, "bob".to_string(), "event:expo".to_string())]
    );
}
