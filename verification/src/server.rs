//! The REST API's request and response logic: query-parameter aliases,
//! boolean form values, which multipart field feeds which request value,
//! the checks before a request is served, and the response bodies.
//!
//! The HTTP plumbing streams the multipart fields in and hands each one to
//! the request form here; once the form is finished it runs the pipeline
//! with the resulting plan and builds the response with the functions here.

use vstd::prelude::*;

use crate::error::FaceError;
use crate::pipeline::PipelineOptions;
use crate::recognition::scope::{EventId, RecognitionContext, RegistrationScope};
use crate::recognition::store::{MatchResult, RecordId, VectorStore};
use crate::score::{score_at_least, score_ge, ScoreBits, SAME_PERSON_THRESHOLD_BITS};
use crate::text::{lowercase_text, text_eq, to_lowercase, trim, trimmed};

verus! {

/// Server health & acceleration status.
#[derive(Debug)]
pub struct HealthResponse {
    pub status: &'static str,
    pub is_detector_accelerated: bool,
    pub is_antispoof_enabled: bool,
    pub embedder_input_size: u32,
}

/// Pipeline switches given as query parameters; each has an alias.
#[derive(Debug, Clone, Copy)]
pub struct PipelineQueryParams {
    /// Enable face detection (default: true)
    pub detect: Option<bool>,
    /// Alias for detect
    pub detect_face: Option<bool>,
    /// Enable anti-spoofing check (default: true)
    pub antispoof: Option<bool>,
    /// Alias for antispoof
    pub liveness: Option<bool>,
    /// Enable the face oval contour background mask (default: true)
    pub mask: Option<bool>,
    /// Alias for mask
    pub apply_mask: Option<bool>,
}

/// `a`, or `b` when `a` is absent.
pub open spec fn either(a: Option<bool>, b: Option<bool>) -> Option<bool> {
    if a is Some { a } else { b }
}

impl PipelineQueryParams {
    /// The detection switch: `detect`, else its alias `detect_face`.
    pub fn get_detect(&self) -> (r: Option<bool>)
        ensures
            r == either(self.detect, self.detect_face),
    {
        match self.detect {
            Some(v) => Some(v),
            None => self.detect_face,
        }
    }

    /// The liveness switch: `antispoof`, else its alias `liveness`.
    pub fn get_antispoof(&self) -> (r: Option<bool>)
        ensures
            r == either(self.antispoof, self.liveness),
    {
        match self.antispoof {
            Some(v) => Some(v),
            None => self.liveness,
        }
    }

    /// The mask switch: `mask`, else its alias `apply_mask`.
    pub fn get_mask(&self) -> (r: Option<bool>)
        ensures
            r == either(self.mask, self.apply_mask),
    {
        match self.mask {
            Some(v) => Some(v),
            None => self.apply_mask,
        }
    }

    /// The options a request starts from: each switch as given, on when absent.
    pub fn initial_options(&self) -> (r: PipelineOptions)
        ensures
            r.detect_face == either(self.detect, self.detect_face).unwrap_or(true),
            r.check_liveness == either(self.antispoof, self.liveness).unwrap_or(true),
            r.apply_mask == either(self.mask, self.apply_mask).unwrap_or(true),
    {
        PipelineOptions {
            detect_face: self.get_detect().unwrap_or(true),
            check_liveness: self.get_antispoof().unwrap_or(true),
            apply_mask: self.get_mask().unwrap_or(true),
        }
    }
}

/// The form values that switch a pipeline step off (after trimming and
/// lowercasing): `false`, `0`, `inactive`, `no`, `off`.
pub open spec fn is_off_word(t: Seq<char>) -> bool {
    ||| t == "false"@
    ||| t == "0"@
    ||| t == "inactive"@
    ||| t == "no"@
    ||| t == "off"@
}

/// Whether an already trimmed and lowercased form value switches a step off.
pub fn is_off_value(t: &str) -> (r: bool)
    ensures
        r == is_off_word(t@),
{
    text_eq(t, "false") || text_eq(t, "0") || text_eq(t, "inactive") || text_eq(t, "no") || text_eq(t, "off")
}

/// Reads a boolean form value: everything except `false`, `0`,
/// `inactive`, `no` and `off` (ignoring surrounding white space and case)
/// switches a step on.
pub fn parse_bool_str(s: &str) -> (r: bool)
    ensures
        r == !is_off_word(lowercase_text(trimmed(s@))),
{
    let t = trim(s);
    let l = to_lowercase(t);
    !is_off_value(l.as_str())
}

/// What a multipart field feeds.
#[derive(Debug, Clone, Copy, PartialEq, Eq, Structural)]
pub enum FormField {
    Photo,
    PhotoA,
    PhotoB,
    PersonId,
    Scope,
    Label,
    Event,
    Threshold,
    Detect,
    Antispoof,
    Mask,
    /// Not a field of this request: ignored.
    Other,
}

/// The field names that set the detection switch.
pub open spec fn is_detect_name(n: Seq<char>) -> bool {
    n == "detect"@ || n == "detect_face"@ || n == "check_detect"@
}

/// The field names that set the liveness switch.
pub open spec fn is_antispoof_name(n: Seq<char>) -> bool {
    n == "antispoof"@ || n == "liveness"@ || n == "check_liveness"@
}

/// The field names that set the mask switch.
pub open spec fn is_mask_name(n: Seq<char>) -> bool {
    n == "mask"@ || n == "apply_mask"@ || n == "use_mask"@ || n == "mask_face"@
}

/// The switch a field name sets, if any.
pub open spec fn switch_field_of(n: Seq<char>) -> FormField {
    if is_detect_name(n) {
        FormField::Detect
    } else if is_antispoof_name(n) {
        FormField::Antispoof
    } else if is_mask_name(n) {
        FormField::Mask
    } else {
        FormField::Other
    }
}

fn switch_field(name: &str) -> (r: FormField)
    ensures
        r == switch_field_of(name@),
{
    if text_eq(name, "detect") || text_eq(name, "detect_face") || text_eq(name, "check_detect") {
        FormField::Detect
    } else if text_eq(name, "antispoof") || text_eq(name, "liveness") || text_eq(name, "check_liveness") {
        FormField::Antispoof
    } else if text_eq(name, "mask") || text_eq(name, "apply_mask") || text_eq(name, "use_mask") || text_eq(
        name,
        "mask_face",
    ) {
        FormField::Mask
    } else {
        FormField::Other
    }
}

/// What an enrollment field named `n` feeds.
pub open spec fn enroll_field_of(n: Seq<char>) -> FormField {
    if n == "photo"@ {
        FormField::Photo
    } else if n == "person_id"@ {
        FormField::PersonId
    } else if n == "scope"@ {
        FormField::Scope
    } else if n == "label"@ {
        FormField::Label
    } else {
        switch_field_of(n)
    }
}

/// What an enrollment field feeds.
pub fn enroll_field(name: &str) -> (r: FormField)
    ensures
        r == enroll_field_of(name@),
{
    if text_eq(name, "photo") {
        FormField::Photo
    } else if text_eq(name, "person_id") {
        FormField::PersonId
    } else if text_eq(name, "scope") {
        FormField::Scope
    } else if text_eq(name, "label") {
        FormField::Label
    } else {
        switch_field(name)
    }
}

/// What an identification field named `n` feeds.
pub open spec fn identify_field_of(n: Seq<char>) -> FormField {
    if n == "photo"@ {
        FormField::Photo
    } else if n == "event"@ {
        FormField::Event
    } else if n == "threshold"@ {
        FormField::Threshold
    } else {
        switch_field_of(n)
    }
}

/// What an identification field feeds.
pub fn identify_field(name: &str) -> (r: FormField)
    ensures
        r == identify_field_of(name@),
{
    if text_eq(name, "photo") {
        FormField::Photo
    } else if text_eq(name, "event") {
        FormField::Event
    } else if text_eq(name, "threshold") {
        FormField::Threshold
    } else {
        switch_field(name)
    }
}

/// What a verification field named `n` feeds.
pub open spec fn verify_field_of(n: Seq<char>) -> FormField {
    if n == "photo_a"@ {
        FormField::PhotoA
    } else if n == "photo_b"@ {
        FormField::PhotoB
    } else {
        switch_field_of(n)
    }
}

/// What a verification field feeds.
pub fn verify_field(name: &str) -> (r: FormField)
    ensures
        r == verify_field_of(name@),
{
    if text_eq(name, "photo_a") {
        FormField::PhotoA
    } else if text_eq(name, "photo_b") {
        FormField::PhotoB
    } else {
        switch_field(name)
    }
}

/// The options after a switch field with value `text`.
pub open spec fn options_after_switch(o: PipelineOptions, field: FormField, text: Seq<char>) -> PipelineOptions {
    let on = !is_off_word(lowercase_text(trimmed(text)));
    match field {
        FormField::Detect => PipelineOptions { detect_face: on, ..o },
        FormField::Antispoof => PipelineOptions { check_liveness: on, ..o },
        FormField::Mask => PipelineOptions { apply_mask: on, ..o },
        _ => o,
    }
}

fn apply_switch(options: &mut PipelineOptions, field: FormField, text: &str)
    ensures
        *final(options) == options_after_switch(*old(options), field, text@),
{
    match field {
        FormField::Detect => {
            options.detect_face = parse_bool_str(text);
        },
        FormField::Antispoof => {
            options.check_liveness = parse_bool_str(text);
        },
        FormField::Mask => {
            options.apply_mask = parse_bool_str(text);
        },
        _ => {},
    }
}

/// Whether `scope` is what the form value `raw` names.
pub open spec fn names_scope(raw: Seq<char>, scope: RegistrationScope) -> bool {
    if raw.len() == 0 || raw == "global"@ {
        scope == RegistrationScope::Global
    } else {
        scope matches RegistrationScope::Event(e) && e.text() == raw
    }
}

/// The registration scope a form value names.
pub fn registration_scope_from(raw: &str) -> (r: RegistrationScope)
    ensures
        names_scope(raw@, r),
{
    if raw.is_empty() || text_eq(raw, "global") {
        RegistrationScope::Global
    } else {
        RegistrationScope::Event(EventId(String::from_str(raw)))
    }
}

/// A multipart error with a fixed message.
pub open spec fn config_error_with(e: FaceError, message: Seq<char>) -> bool {
    e matches FaceError::Config(m) && m@ == message
}

/// The enrollment request body (multipart form): one photo with exactly
/// one face, the person, the scope (`global` or an event id), an optional
/// label, and optional pipeline switches.
#[derive(Debug)]
pub struct EnrollRequest {
    /// The image file's contents.
    pub photo: Vec<u8>,
    pub person_id: String,
    pub scope: Option<String>,
    pub label: Option<String>,
    pub detect_face: Option<bool>,
    pub antispoof: Option<bool>,
    pub mask: Option<bool>,
}

/// The identification request body (multipart form): the probe photo, the
/// event to search alongside the global registry, a minimum similarity
/// (binary32 encoding), and optional pipeline switches.
#[derive(Debug)]
pub struct IdentifyRequest {
    /// The image file's contents.
    pub photo: Vec<u8>,
    pub event: Option<String>,
    pub threshold: Option<ScoreBits>,
    pub detect_face: Option<bool>,
    pub antispoof: Option<bool>,
    pub mask: Option<bool>,
}

/// The verification request body (multipart form): two photos, each with
/// one face, and optional pipeline switches.
#[derive(Debug)]
pub struct VerifyRequest {
    pub photo_a: Vec<u8>,
    pub photo_b: Vec<u8>,
    pub detect_face: Option<bool>,
    pub antispoof: Option<bool>,
    pub mask: Option<bool>,
}

/// An enrollment request being read.
pub struct EnrollForm {
    pub photo: Option<Vec<u8>>,
    pub person_id: Option<String>,
    pub scope: String,
    pub label: Option<String>,
    pub options: PipelineOptions,
}

/// A complete enrollment request.
pub struct EnrollPlan {
    pub photo: Vec<u8>,
    pub person_id: String,
    /// The scope as the client wrote it (echoed back in the response).
    pub scope_raw: String,
    pub scope: RegistrationScope,
    pub label: Option<String>,
    pub options: PipelineOptions,
}

impl EnrollForm {
    /// A fresh form: no photo or person yet, the global scope, no label,
    /// and the switches from the query parameters.
    pub fn new(query: &PipelineQueryParams) -> (f: EnrollForm)
        ensures
            f.photo is None,
            f.person_id is None,
            f.scope@ == "global"@,
            f.label is None,
            f.options == (PipelineOptions {
                detect_face: either(query.detect, query.detect_face).unwrap_or(true),
                check_liveness: either(query.antispoof, query.liveness).unwrap_or(true),
                apply_mask: either(query.mask, query.apply_mask).unwrap_or(true),
            }),
    {
        EnrollForm {
            photo: None,
            person_id: None,
            scope: String::from_str("global"),
            label: None,
            options: query.initial_options(),
        }
    }

    /// Takes the photo's bytes.
    pub fn accept_photo(&mut self, bytes: Vec<u8>)
        ensures
            final(self).photo == Some(bytes),
            final(self).person_id == old(self).person_id,
            final(self).scope == old(self).scope,
            final(self).label == old(self).label,
            final(self).options == old(self).options,
    {
        self.photo = Some(bytes);
    }

    /// Takes a text field: the person id, the scope, the label, or a
    /// switch; text for any other field is ignored.
    pub fn accept_text(&mut self, field: FormField, text: String)
        ensures
            final(self).photo == old(self).photo,
            final(self).person_id == if field == FormField::PersonId { Some(text) } else { old(self).person_id },
            final(self).scope == if field == FormField::Scope { text } else { old(self).scope },
            final(self).label == if field == FormField::Label { Some(text) } else { old(self).label },
            final(self).options == options_after_switch(old(self).options, field, text@),
    {
        match field {
            FormField::PersonId => {
                self.person_id = Some(text);
            },
            FormField::Scope => {
                self.scope = text;
            },
            FormField::Label => {
                self.label = Some(text);
            },
            _ => {
                apply_switch(&mut self.options, field, text.as_str());
            },
        }
    }

    /// The complete request, or the first missing required field: the
    /// photo, then the person id.
    pub fn finish(self) -> (r: Result<EnrollPlan, FaceError>)
        ensures
            self.photo is None ==> (r matches Err(e) && config_error_with(
                e,
                "Missing required multipart field 'photo'"@,
            )),
            self.photo is Some && self.person_id is None ==> (r matches Err(e) && config_error_with(
                e,
                "Missing required multipart field 'person_id'"@,
            )),
            self.photo is Some && self.person_id is Some ==> (r matches Ok(p) && {
                &&& p.photo == self.photo->Some_0
                &&& p.person_id == self.person_id->Some_0
                &&& p.scope_raw == self.scope
                &&& names_scope(self.scope@, p.scope)
                &&& p.label == self.label
                &&& p.options == self.options
            }),
    {
        let photo = match self.photo {
            Some(p) => p,
            None => {
                return Err(FaceError::Config(String::from_str("Missing required multipart field 'photo'")));
            },
        };
        let person_id = match self.person_id {
            Some(p) => p,
            None => {
                return Err(FaceError::Config(String::from_str("Missing required multipart field 'person_id'")));
            },
        };
        let scope = registration_scope_from(self.scope.as_str());
        Ok(EnrollPlan { photo, person_id, scope_raw: self.scope, scope, label: self.label, options: self.options })
    }
}

/// An identification request being read.
pub struct IdentifyForm {
    pub photo: Option<Vec<u8>>,
    pub event: Option<String>,
    /// The minimum similarity asked for, as its binary32 encoding.
    pub threshold: Option<ScoreBits>,
    pub options: PipelineOptions,
}

/// A complete identification request.
pub struct IdentifyPlan {
    pub photo: Vec<u8>,
    pub context: RecognitionContext,
    pub threshold: Option<ScoreBits>,
    pub options: PipelineOptions,
}

impl IdentifyForm {
    /// A fresh form: no photo, event or threshold, and the switches from the
    /// query parameters.
    pub fn new(query: &PipelineQueryParams) -> (f: IdentifyForm)
        ensures
            f.photo is None,
            f.event is None,
            f.threshold is None,
            f.options == (PipelineOptions {
                detect_face: either(query.detect, query.detect_face).unwrap_or(true),
                check_liveness: either(query.antispoof, query.liveness).unwrap_or(true),
                apply_mask: either(query.mask, query.apply_mask).unwrap_or(true),
            }),
    {
        IdentifyForm { photo: None, event: None, threshold: None, options: query.initial_options() }
    }

    /// Takes the photo's bytes.
    pub fn accept_photo(&mut self, bytes: Vec<u8>)
        ensures
            final(self).photo == Some(bytes),
            final(self).event == old(self).event,
            final(self).threshold == old(self).threshold,
            final(self).options == old(self).options,
    {
        self.photo = Some(bytes);
    }

    /// Takes the threshold field, as parsed (`None` when it did not parse as
    /// a number, which leaves the threshold as it was).
    pub fn accept_threshold(&mut self, parsed: Option<ScoreBits>)
        ensures
            final(self).photo == old(self).photo,
            final(self).event == old(self).event,
            final(self).threshold == if parsed is Some { parsed } else { old(self).threshold },
            final(self).options == old(self).options,
    {
        if parsed.is_some() {
            self.threshold = parsed;
        }
    }

    /// Takes a text field: a non-empty event id, or a switch; other text is
    /// ignored.
    pub fn accept_text(&mut self, field: FormField, text: String)
        ensures
            final(self).photo == old(self).photo,
            final(self).event == if field == FormField::Event && text@.len() > 0 {
                Some(text)
            } else {
                old(self).event
            },
            final(self).threshold == old(self).threshold,
            final(self).options == options_after_switch(old(self).options, field, text@),
    {
        match field {
            FormField::Event => {
                if !text.as_str().is_empty() {
                    self.event = Some(text);
                }
            },
            _ => {
                apply_switch(&mut self.options, field, text.as_str());
            },
        }
    }

    /// The complete request (searching the global registry together with
    /// the named event's, if any), or an error when the photo is missing.
    pub fn finish(self) -> (r: Result<IdentifyPlan, FaceError>)
        ensures
            self.photo is None ==> (r matches Err(e) && config_error_with(
                e,
                "Missing required multipart field 'photo'"@,
            )),
            self.photo is Some ==> (r matches Ok(p) && {
                &&& p.photo == self.photo->Some_0
                &&& match self.event {
                    Some(e) => p.context matches RecognitionContext::Event(id) && id.text() == e@,
                    None => p.context == RecognitionContext::GlobalOnly,
                }
                &&& p.threshold == self.threshold
                &&& p.options == self.options
            }),
    {
        let photo = match self.photo {
            Some(p) => p,
            None => {
                return Err(FaceError::Config(String::from_str("Missing required multipart field 'photo'")));
            },
        };
        let context = match self.event {
            Some(e) => RecognitionContext::Event(EventId(e)),
            None => RecognitionContext::GlobalOnly,
        };
        Ok(IdentifyPlan { photo, context, threshold: self.threshold, options: self.options })
    }
}

/// A match as reported by the API.
#[derive(Debug)]
pub struct MatchInfo {
    pub record_id: u32,
    pub person_id: String,
    /// binary32 encoding of the similarity.
    pub similarity: ScoreBits,
    pub origin: String,
    pub label: Option<String>,
}

/// The identification response.
#[derive(Debug)]
pub struct IdentifyResponse {
    pub matched: bool,
    pub match_result: Option<MatchInfo>,
}

/// Whether an identification's match is reported: there is one, and it
/// reaches the request's own threshold when one was given.
pub open spec fn match_reported(m: Option<MatchResult>, threshold: Option<ScoreBits>) -> bool {
    match m {
        Some(mr) => match threshold {
            Some(t) => score_ge(mr.similarity, t),
            None => true,
        },
        None => false,
    }
}

/// The identification response for a match (if any) under the request's
/// optional threshold.
pub fn identify_response(m: Option<MatchResult>, threshold: Option<ScoreBits>) -> (r: IdentifyResponse)
    ensures
        r.matched == match_reported(m, threshold),
        r.matched ==> (r.match_result matches Some(info) && {
            let mr = m->Some_0;
            &&& info.record_id == mr.record_id
            &&& info.person_id@ == mr.person_id.text()
            &&& info.similarity == mr.similarity
            &&& info.origin@ == mr.origin.display_text()
            &&& info.label == mr.label
        }),
        !r.matched ==> r.match_result is None,
{
    match m {
        Some(mr) => {
            let reported = match threshold {
                Some(t) => score_at_least(mr.similarity, t),
                None => true,
            };
            if reported {
                IdentifyResponse {
                    matched: true,
                    match_result: Some(
                        MatchInfo {
                            record_id: mr.record_id,
                            person_id: mr.person_id.display_string(),
                            similarity: mr.similarity,
                            origin: mr.origin.display_string(),
                            label: mr.label,
                        },
                    ),
                }
            } else {
                IdentifyResponse { matched: false, match_result: None }
            }
        },
        None => IdentifyResponse { matched: false, match_result: None },
    }
}

/// A verification request being read.
pub struct VerifyForm {
    pub photo_a: Option<Vec<u8>>,
    pub photo_b: Option<Vec<u8>>,
    pub options: PipelineOptions,
}

/// A complete verification request.
pub struct VerifyPlan {
    pub photo_a: Vec<u8>,
    pub photo_b: Vec<u8>,
    pub options: PipelineOptions,
}

impl VerifyForm {
    /// A fresh form: no photos, and the switches from the query parameters.
    pub fn new(query: &PipelineQueryParams) -> (f: VerifyForm)
        ensures
            f.photo_a is None,
            f.photo_b is None,
            f.options == (PipelineOptions {
                detect_face: either(query.detect, query.detect_face).unwrap_or(true),
                check_liveness: either(query.antispoof, query.liveness).unwrap_or(true),
                apply_mask: either(query.mask, query.apply_mask).unwrap_or(true),
            }),
    {
        VerifyForm { photo_a: None, photo_b: None, options: query.initial_options() }
    }

    /// Takes one of the photos' bytes (`PhotoA` or `PhotoB`; other fields
    /// are ignored).
    pub fn accept_photo(&mut self, field: FormField, bytes: Vec<u8>)
        ensures
            final(self).photo_a == if field == FormField::PhotoA { Some(bytes) } else { old(self).photo_a },
            final(self).photo_b == if field == FormField::PhotoB { Some(bytes) } else { old(self).photo_b },
            final(self).options == old(self).options,
    {
        match field {
            FormField::PhotoA => {
                self.photo_a = Some(bytes);
            },
            FormField::PhotoB => {
                self.photo_b = Some(bytes);
            },
            _ => {},
        }
    }

    /// Takes a switch's text; other text is ignored.
    pub fn accept_text(&mut self, field: FormField, text: String)
        ensures
            final(self).photo_a == old(self).photo_a,
            final(self).photo_b == old(self).photo_b,
            final(self).options == options_after_switch(old(self).options, field, text@),
    {
        apply_switch(&mut self.options, field, text.as_str());
    }

    /// The complete request, or the first missing photo.
    pub fn finish(self) -> (r: Result<VerifyPlan, FaceError>)
        ensures
            self.photo_a is None ==> (r matches Err(e) && config_error_with(
                e,
                "Missing required multipart field 'photo_a'"@,
            )),
            self.photo_a is Some && self.photo_b is None ==> (r matches Err(e) && config_error_with(
                e,
                "Missing required multipart field 'photo_b'"@,
            )),
            self.photo_a is Some && self.photo_b is Some ==> (r matches Ok(p) && {
                &&& p.photo_a == self.photo_a->Some_0
                &&& p.photo_b == self.photo_b->Some_0
                &&& p.options == self.options
            }),
    {
        let photo_a = match self.photo_a {
            Some(p) => p,
            None => {
                return Err(FaceError::Config(String::from_str("Missing required multipart field 'photo_a'")));
            },
        };
        let photo_b = match self.photo_b {
            Some(p) => p,
            None => {
                return Err(FaceError::Config(String::from_str("Missing required multipart field 'photo_b'")));
            },
        };
        Ok(VerifyPlan { photo_a, photo_b, options: self.options })
    }
}

/// The verification response.
#[derive(Debug)]
pub struct VerifyResponse {
    /// binary32 encoding of the similarity.
    pub similarity: ScoreBits,
    pub is_same_person: bool,
}

/// The verification response: the similarity, and whether it reaches 0.45.
pub fn verify_response(similarity: ScoreBits) -> (r: VerifyResponse)
    ensures
        r.similarity == similarity,
        r.is_same_person == score_ge(similarity, SAME_PERSON_THRESHOLD_BITS),
{
    VerifyResponse { similarity, is_same_person: score_at_least(similarity, SAME_PERSON_THRESHOLD_BITS) }
}

/// The enrollment response.
#[derive(Debug)]
pub struct EnrollResponse {
    pub record_id: u32,
    pub person_id: String,
    pub scope: String,
    pub total_registrations: usize,
}

/// One registration as listed by the registry statistics.
#[derive(Debug)]
pub struct RegistryRecordItem {
    pub record_id: u32,
    pub person_id: String,
    pub scope: String,
    pub label: Option<String>,
}

/// The registry statistics: every registration.
#[derive(Debug)]
pub struct RegistryStatsResponse {
    pub total_records: usize,
    pub records: Vec<RegistryRecordItem>,
}

/// The registry statistics: one item per registration (id, person, scope as
/// `global` or `event:<id>`, label), and their number.
pub fn registry_stats(store: &VectorStore) -> (r: RegistryStatsResponse)
    requires
        store@.wf(),
    ensures
        r.total_records == r.records@.len(),
        r.total_records == store@.records.len(),
        forall|i: int| 0 <= i < r.records@.len() ==> {
            let item = #[trigger] r.records@[i];
            &&& store@.records.contains_key(item.record_id)
            &&& item.person_id@ == store@.records[item.record_id].person_id.text()
            &&& item.scope@ == store@.records[item.record_id].scope.display_text()
            &&& item.label == store@.records[item.record_id].label
        },
        forall|id: RecordId| store@.records.contains_key(id) ==> exists|i: int|
            0 <= i < r.records@.len() && (#[trigger] r.records@[i]).record_id == id,
{
    let all = store.all_records();
    let mut items: Vec<RegistryRecordItem> = Vec::new();
    let mut i: usize = 0;
    while i < all.len()
        invariant
            store@.wf(),
            i <= all@.len(),
            items@.len() == i,
            forall|j: int| 0 <= j < all@.len() ==> store@.records.contains_key((#[trigger] all@[j]).id)
                && *all@[j] == store@.records[all@[j].id],
            forall|j: int| 0 <= j < i ==> {
                let item = #[trigger] items@[j];
                &&& item.record_id == all@[j].id
                &&& item.person_id@ == all@[j].person_id.text()
                &&& item.scope@ == all@[j].scope.display_text()
                &&& item.label == all@[j].label
            },
        decreases all@.len() - i,
    {
        let rec = all[i];
        items.push(
            RegistryRecordItem {
                record_id: rec.id,
                person_id: rec.person_id.display_string(),
                scope: rec.scope.display_string(),
                label: crate::recognition::store::duplicate_label(&rec.label),
            },
        );
        i = i + 1;
    }
    proof {
        assert forall|id: RecordId| store@.records.contains_key(id) implies exists|k: int|
            0 <= k < items@.len() && (#[trigger] items@[k]).record_id == id by {
            let k = choose|k: int| 0 <= k < all@.len() && (#[trigger] all@[k]).id == id;
            assert(items@[k].record_id == id);
        }
    }
    let n = items.len();
    RegistryStatsResponse { total_records: n, records: items }
}

/// The OpenAPI document of the REST API.
pub struct ApiDoc;


/// Each switch field sets its own option and leaves the other two as they
/// were, all three read a value the same way, and any other field changes
/// nothing. A value switches a step off exactly when, trimmed and
/// lowercased, it is `false`, `0`, `inactive`, `no` or `off`; so `true`,
/// `1`, `yes`, `on` and the empty value all switch it on.
pub proof fn law_switch_fields_set_only_their_own_option(o: PipelineOptions, field: FormField, text: Seq<char>)
    ensures
        ({
            let d = options_after_switch(o, FormField::Detect, text);
            let a = options_after_switch(o, FormField::Antispoof, text);
            let m = options_after_switch(o, FormField::Mask, text);
            &&& d.check_liveness == o.check_liveness && d.apply_mask == o.apply_mask
            &&& a.detect_face == o.detect_face && a.apply_mask == o.apply_mask
            &&& m.detect_face == o.detect_face && m.check_liveness == o.check_liveness
            &&& d.detect_face == a.check_liveness && a.check_liveness == m.apply_mask
            &&& (d.detect_face <==> !is_off_word(lowercase_text(trimmed(text))))
        }),
        field != FormField::Detect && field != FormField::Antispoof && field != FormField::Mask
            ==> options_after_switch(o, field, text) == o,
        is_off_word("false"@),
        is_off_word("0"@),
        is_off_word("inactive"@),
        is_off_word("no"@),
        is_off_word("off"@),
        !is_off_word("true"@),
        !is_off_word("1"@),
        !is_off_word("yes"@),
        !is_off_word("on"@),
        !is_off_word(""@),
{
    reveal_strlit("false");
    reveal_strlit("0");
    reveal_strlit("inactive");
    reveal_strlit("no");
    reveal_strlit("off");
    reveal_strlit("true");
    reveal_strlit("1");
    reveal_strlit("yes");
    reveal_strlit("on");
    reveal_strlit("");
    assert("true"@.len() != "false"@.len() && "true"@.len() != "0"@.len() && "true"@.len() != "inactive"@.len()
        && "true"@.len() != "no"@.len() && "true"@.len() != "off"@.len());
    assert("1"@ != "0"@) by {
        assert("1"@[0] != "0"@[0]);
    }
    assert("1"@.len() != "false"@.len() && "1"@.len() != "inactive"@.len() && "1"@.len() != "no"@.len()
        && "1"@.len() != "off"@.len());
    assert("yes"@ != "off"@) by {
        assert("yes"@[0] != "off"@[0]);
    }
    assert("yes"@.len() != "false"@.len() && "yes"@.len() != "0"@.len() && "yes"@.len() != "inactive"@.len()
        && "yes"@.len() != "no"@.len());
    assert("on"@ != "no"@) by {
        assert("on"@[0] != "no"@[0]);
    }
    assert("on"@.len() != "false"@.len() && "on"@.len() != "0"@.len() && "on"@.len() != "inactive"@.len()
        && "on"@.len() != "off"@.len());
    assert(""@.len() != "false"@.len() && ""@.len() != "0"@.len() && ""@.len() != "inactive"@.len()
        && ""@.len() != "no"@.len() && ""@.len() != "off"@.len());
}

/// An empty scope or `global` registers globally; any other value
/// registers under the event of exactly that name.
pub proof fn law_scope_value_names_the_scope(raw: Seq<char>, scope: RegistrationScope)
    ensures
        names_scope(""@, RegistrationScope::Global),
        names_scope("global"@, RegistrationScope::Global),
        names_scope(raw, scope) ==> (scope == RegistrationScope::Global <==> (raw.len() == 0 || raw == "global"@)),
        names_scope(raw, scope) ==> (scope matches RegistrationScope::Event(e) ==> e.text() == raw),
{
    reveal_strlit("");
}

/// A reported match is one that there was; without a threshold every
/// match is reported; a threshold only ever holds matches back.
pub proof fn law_threshold_only_holds_matches_back(m: Option<MatchResult>, t: ScoreBits)
    ensures
        match_reported(m, None) <==> m is Some,
        match_reported(m, Some(t)) ==> match_reported(m, None),
        m matches Some(mr) ==> (match_reported(m, Some(t)) <==> score_ge(mr.similarity, t)),
        SAME_PERSON_THRESHOLD_BITS == 0x3EE6_6666,
{
}

/// The multipart fields of the three requests, by name: `antispoof`,
/// `liveness` and `check_liveness` set the liveness switch, `detect`,
/// `detect_face` and `check_detect` the detection switch, `mask`,
/// `apply_mask`, `use_mask` and `mask_face` the mask switch, in every
/// request; `photo`, `person_id`, `scope` and `label` feed an enrollment,
/// `photo`, `event` and `threshold` an identification, `photo_a` and
/// `photo_b` a verification; any other name is ignored.
pub proof fn law_multipart_field_names(n: Seq<char>)
    ensures
        enroll_field_of("antispoof"@) == FormField::Antispoof,
        identify_field_of("antispoof"@) == FormField::Antispoof,
        verify_field_of("antispoof"@) == FormField::Antispoof,
        enroll_field_of("liveness"@) == FormField::Antispoof,
        identify_field_of("liveness"@) == FormField::Antispoof,
        verify_field_of("liveness"@) == FormField::Antispoof,
        enroll_field_of("check_liveness"@) == FormField::Antispoof,
        identify_field_of("check_liveness"@) == FormField::Antispoof,
        verify_field_of("check_liveness"@) == FormField::Antispoof,
        enroll_field_of("detect"@) == FormField::Detect,
        identify_field_of("detect"@) == FormField::Detect,
        verify_field_of("detect"@) == FormField::Detect,
        enroll_field_of("detect_face"@) == FormField::Detect,
        identify_field_of("detect_face"@) == FormField::Detect,
        verify_field_of("detect_face"@) == FormField::Detect,
        enroll_field_of("check_detect"@) == FormField::Detect,
        identify_field_of("check_detect"@) == FormField::Detect,
        verify_field_of("check_detect"@) == FormField::Detect,
        enroll_field_of("mask"@) == FormField::Mask,
        identify_field_of("mask"@) == FormField::Mask,
        verify_field_of("mask"@) == FormField::Mask,
        enroll_field_of("apply_mask"@) == FormField::Mask,
        identify_field_of("apply_mask"@) == FormField::Mask,
        verify_field_of("apply_mask"@) == FormField::Mask,
        enroll_field_of("use_mask"@) == FormField::Mask,
        identify_field_of("use_mask"@) == FormField::Mask,
        verify_field_of("use_mask"@) == FormField::Mask,
        enroll_field_of("mask_face"@) == FormField::Mask,
        identify_field_of("mask_face"@) == FormField::Mask,
        verify_field_of("mask_face"@) == FormField::Mask,
        n == "photo"@ ==> (enroll_field_of(n) == FormField::Photo && identify_field_of(n) == FormField::Photo && verify_field_of(n) == FormField::Other),
        n == "person_id"@ ==> (enroll_field_of(n) == FormField::PersonId && identify_field_of(n) == FormField::Other && verify_field_of(n) == FormField::Other),
        n == "scope"@ ==> (enroll_field_of(n) == FormField::Scope && identify_field_of(n) == FormField::Other && verify_field_of(n) == FormField::Other),
        n == "label"@ ==> (enroll_field_of(n) == FormField::Label && identify_field_of(n) == FormField::Other && verify_field_of(n) == FormField::Other),
        n == "event"@ ==> (enroll_field_of(n) == FormField::Other && identify_field_of(n) == FormField::Event && verify_field_of(n) == FormField::Other),
        n == "threshold"@ ==> (enroll_field_of(n) == FormField::Other && identify_field_of(n) == FormField::Threshold && verify_field_of(n) == FormField::Other),
        n == "photo_a"@ ==> (enroll_field_of(n) == FormField::Other && identify_field_of(n) == FormField::Other && verify_field_of(n) == FormField::PhotoA),
        n == "photo_b"@ ==> (enroll_field_of(n) == FormField::Other && identify_field_of(n) == FormField::Other && verify_field_of(n) == FormField::PhotoB),
        (n != "photo"@ && n != "person_id"@ && n != "scope"@ && n != "label"@ && n != "event"@ && n != "threshold"@ && n != "photo_a"@ && n != "photo_b"@ && n != "detect"@ && n != "detect_face"@ && n != "check_detect"@ && n != "antispoof"@ && n != "liveness"@ && n != "check_liveness"@ && n != "mask"@ && n != "apply_mask"@ && n != "use_mask"@ && n != "mask_face"@) ==> (enroll_field_of(n) == FormField::Other && identify_field_of(n) == FormField::Other && verify_field_of(n) == FormField::Other),
{
    lemma_field_names_distinct();
}


/// The multipart field names are all different from each other.
proof fn lemma_field_names_distinct()
    ensures
        "photo"@ != "person_id"@,
        "photo"@ != "scope"@,
        "photo"@ != "label"@,
        "photo"@ != "event"@,
        "photo"@ != "threshold"@,
        "photo"@ != "photo_a"@,
        "photo"@ != "photo_b"@,
        "photo"@ != "detect"@,
        "photo"@ != "detect_face"@,
        "photo"@ != "check_detect"@,
        "photo"@ != "antispoof"@,
        "photo"@ != "liveness"@,
        "photo"@ != "check_liveness"@,
        "photo"@ != "mask"@,
        "photo"@ != "apply_mask"@,
        "photo"@ != "use_mask"@,
        "photo"@ != "mask_face"@,
        "person_id"@ != "scope"@,
        "person_id"@ != "label"@,
        "person_id"@ != "event"@,
        "person_id"@ != "threshold"@,
        "person_id"@ != "photo_a"@,
        "person_id"@ != "photo_b"@,
        "person_id"@ != "detect"@,
        "person_id"@ != "detect_face"@,
        "person_id"@ != "check_detect"@,
        "person_id"@ != "antispoof"@,
        "person_id"@ != "liveness"@,
        "person_id"@ != "check_liveness"@,
        "person_id"@ != "mask"@,
        "person_id"@ != "apply_mask"@,
        "person_id"@ != "use_mask"@,
        "person_id"@ != "mask_face"@,
        "scope"@ != "label"@,
        "scope"@ != "event"@,
        "scope"@ != "threshold"@,
        "scope"@ != "photo_a"@,
        "scope"@ != "photo_b"@,
        "scope"@ != "detect"@,
        "scope"@ != "detect_face"@,
        "scope"@ != "check_detect"@,
        "scope"@ != "antispoof"@,
        "scope"@ != "liveness"@,
        "scope"@ != "check_liveness"@,
        "scope"@ != "mask"@,
        "scope"@ != "apply_mask"@,
        "scope"@ != "use_mask"@,
        "scope"@ != "mask_face"@,
        "label"@ != "event"@,
        "label"@ != "threshold"@,
        "label"@ != "photo_a"@,
        "label"@ != "photo_b"@,
        "label"@ != "detect"@,
        "label"@ != "detect_face"@,
        "label"@ != "check_detect"@,
        "label"@ != "antispoof"@,
        "label"@ != "liveness"@,
        "label"@ != "check_liveness"@,
        "label"@ != "mask"@,
        "label"@ != "apply_mask"@,
        "label"@ != "use_mask"@,
        "label"@ != "mask_face"@,
        "event"@ != "threshold"@,
        "event"@ != "photo_a"@,
        "event"@ != "photo_b"@,
        "event"@ != "detect"@,
        "event"@ != "detect_face"@,
        "event"@ != "check_detect"@,
        "event"@ != "antispoof"@,
        "event"@ != "liveness"@,
        "event"@ != "check_liveness"@,
        "event"@ != "mask"@,
        "event"@ != "apply_mask"@,
        "event"@ != "use_mask"@,
        "event"@ != "mask_face"@,
        "threshold"@ != "photo_a"@,
        "threshold"@ != "photo_b"@,
        "threshold"@ != "detect"@,
        "threshold"@ != "detect_face"@,
        "threshold"@ != "check_detect"@,
        "threshold"@ != "antispoof"@,
        "threshold"@ != "liveness"@,
        "threshold"@ != "check_liveness"@,
        "threshold"@ != "mask"@,
        "threshold"@ != "apply_mask"@,
        "threshold"@ != "use_mask"@,
        "threshold"@ != "mask_face"@,
        "photo_a"@ != "photo_b"@,
        "photo_a"@ != "detect"@,
        "photo_a"@ != "detect_face"@,
        "photo_a"@ != "check_detect"@,
        "photo_a"@ != "antispoof"@,
        "photo_a"@ != "liveness"@,
        "photo_a"@ != "check_liveness"@,
        "photo_a"@ != "mask"@,
        "photo_a"@ != "apply_mask"@,
        "photo_a"@ != "use_mask"@,
        "photo_a"@ != "mask_face"@,
        "photo_b"@ != "detect"@,
        "photo_b"@ != "detect_face"@,
        "photo_b"@ != "check_detect"@,
        "photo_b"@ != "antispoof"@,
        "photo_b"@ != "liveness"@,
        "photo_b"@ != "check_liveness"@,
        "photo_b"@ != "mask"@,
        "photo_b"@ != "apply_mask"@,
        "photo_b"@ != "use_mask"@,
        "photo_b"@ != "mask_face"@,
        "detect"@ != "detect_face"@,
        "detect"@ != "check_detect"@,
        "detect"@ != "antispoof"@,
        "detect"@ != "liveness"@,
        "detect"@ != "check_liveness"@,
        "detect"@ != "mask"@,
        "detect"@ != "apply_mask"@,
        "detect"@ != "use_mask"@,
        "detect"@ != "mask_face"@,
        "detect_face"@ != "check_detect"@,
        "detect_face"@ != "antispoof"@,
        "detect_face"@ != "liveness"@,
        "detect_face"@ != "check_liveness"@,
        "detect_face"@ != "mask"@,
        "detect_face"@ != "apply_mask"@,
        "detect_face"@ != "use_mask"@,
        "detect_face"@ != "mask_face"@,
        "check_detect"@ != "antispoof"@,
        "check_detect"@ != "liveness"@,
        "check_detect"@ != "check_liveness"@,
        "check_detect"@ != "mask"@,
        "check_detect"@ != "apply_mask"@,
        "check_detect"@ != "use_mask"@,
        "check_detect"@ != "mask_face"@,
        "antispoof"@ != "liveness"@,
        "antispoof"@ != "check_liveness"@,
        "antispoof"@ != "mask"@,
        "antispoof"@ != "apply_mask"@,
        "antispoof"@ != "use_mask"@,
        "antispoof"@ != "mask_face"@,
        "liveness"@ != "check_liveness"@,
        "liveness"@ != "mask"@,
        "liveness"@ != "apply_mask"@,
        "liveness"@ != "use_mask"@,
        "liveness"@ != "mask_face"@,
        "check_liveness"@ != "mask"@,
        "check_liveness"@ != "apply_mask"@,
        "check_liveness"@ != "use_mask"@,
        "check_liveness"@ != "mask_face"@,
        "mask"@ != "apply_mask"@,
        "mask"@ != "use_mask"@,
        "mask"@ != "mask_face"@,
        "apply_mask"@ != "use_mask"@,
        "apply_mask"@ != "mask_face"@,
        "use_mask"@ != "mask_face"@,
{
    reveal_strlit("photo");
    reveal_strlit("person_id");
    reveal_strlit("scope");
    reveal_strlit("label");
    reveal_strlit("event");
    reveal_strlit("threshold");
    reveal_strlit("photo_a");
    reveal_strlit("photo_b");
    reveal_strlit("detect");
    reveal_strlit("detect_face");
    reveal_strlit("check_detect");
    reveal_strlit("antispoof");
    reveal_strlit("liveness");
    reveal_strlit("check_liveness");
    reveal_strlit("mask");
    reveal_strlit("apply_mask");
    reveal_strlit("use_mask");
    reveal_strlit("mask_face");
    assert("photo"@.len() != "person_id"@.len());
    assert("photo"@[0] != "scope"@[0]);
    assert("photo"@[0] != "label"@[0]);
    assert("photo"@[0] != "event"@[0]);
    assert("photo"@.len() != "threshold"@.len());
    assert("photo"@.len() != "photo_a"@.len());
    assert("photo"@.len() != "photo_b"@.len());
    assert("photo"@.len() != "detect"@.len());
    assert("photo"@.len() != "detect_face"@.len());
    assert("photo"@.len() != "check_detect"@.len());
    assert("photo"@.len() != "antispoof"@.len());
    assert("photo"@.len() != "liveness"@.len());
    assert("photo"@.len() != "check_liveness"@.len());
    assert("photo"@.len() != "mask"@.len());
    assert("photo"@.len() != "apply_mask"@.len());
    assert("photo"@.len() != "use_mask"@.len());
    assert("photo"@.len() != "mask_face"@.len());
    assert("person_id"@.len() != "scope"@.len());
    assert("person_id"@.len() != "label"@.len());
    assert("person_id"@.len() != "event"@.len());
    assert("person_id"@[0] != "threshold"@[0]);
    assert("person_id"@.len() != "photo_a"@.len());
    assert("person_id"@.len() != "photo_b"@.len());
    assert("person_id"@.len() != "detect"@.len());
    assert("person_id"@.len() != "detect_face"@.len());
    assert("person_id"@.len() != "check_detect"@.len());
    assert("person_id"@[0] != "antispoof"@[0]);
    assert("person_id"@.len() != "liveness"@.len());
    assert("person_id"@.len() != "check_liveness"@.len());
    assert("person_id"@.len() != "mask"@.len());
    assert("person_id"@.len() != "apply_mask"@.len());
    assert("person_id"@.len() != "use_mask"@.len());
    assert("person_id"@[0] != "mask_face"@[0]);
    assert("scope"@[0] != "label"@[0]);
    assert("scope"@[0] != "event"@[0]);
    assert("scope"@.len() != "threshold"@.len());
    assert("scope"@.len() != "photo_a"@.len());
    assert("scope"@.len() != "photo_b"@.len());
    assert("scope"@.len() != "detect"@.len());
    assert("scope"@.len() != "detect_face"@.len());
    assert("scope"@.len() != "check_detect"@.len());
    assert("scope"@.len() != "antispoof"@.len());
    assert("scope"@.len() != "liveness"@.len());
    assert("scope"@.len() != "check_liveness"@.len());
    assert("scope"@.len() != "mask"@.len());
    assert("scope"@.len() != "apply_mask"@.len());
    assert("scope"@.len() != "use_mask"@.len());
    assert("scope"@.len() != "mask_face"@.len());
    assert("label"@[0] != "event"@[0]);
    assert("label"@.len() != "threshold"@.len());
    assert("label"@.len() != "photo_a"@.len());
    assert("label"@.len() != "photo_b"@.len());
    assert("label"@.len() != "detect"@.len());
    assert("label"@.len() != "detect_face"@.len());
    assert("label"@.len() != "check_detect"@.len());
    assert("label"@.len() != "antispoof"@.len());
    assert("label"@.len() != "liveness"@.len());
    assert("label"@.len() != "check_liveness"@.len());
    assert("label"@.len() != "mask"@.len());
    assert("label"@.len() != "apply_mask"@.len());
    assert("label"@.len() != "use_mask"@.len());
    assert("label"@.len() != "mask_face"@.len());
    assert("event"@.len() != "threshold"@.len());
    assert("event"@.len() != "photo_a"@.len());
    assert("event"@.len() != "photo_b"@.len());
    assert("event"@.len() != "detect"@.len());
    assert("event"@.len() != "detect_face"@.len());
    assert("event"@.len() != "check_detect"@.len());
    assert("event"@.len() != "antispoof"@.len());
    assert("event"@.len() != "liveness"@.len());
    assert("event"@.len() != "check_liveness"@.len());
    assert("event"@.len() != "mask"@.len());
    assert("event"@.len() != "apply_mask"@.len());
    assert("event"@.len() != "use_mask"@.len());
    assert("event"@.len() != "mask_face"@.len());
    assert("threshold"@.len() != "photo_a"@.len());
    assert("threshold"@.len() != "photo_b"@.len());
    assert("threshold"@.len() != "detect"@.len());
    assert("threshold"@.len() != "detect_face"@.len());
    assert("threshold"@.len() != "check_detect"@.len());
    assert("threshold"@[0] != "antispoof"@[0]);
    assert("threshold"@.len() != "liveness"@.len());
    assert("threshold"@.len() != "check_liveness"@.len());
    assert("threshold"@.len() != "mask"@.len());
    assert("threshold"@.len() != "apply_mask"@.len());
    assert("threshold"@.len() != "use_mask"@.len());
    assert("threshold"@[0] != "mask_face"@[0]);
    assert("photo_a"@[6] != "photo_b"@[6]);
    assert("photo_a"@.len() != "detect"@.len());
    assert("photo_a"@.len() != "detect_face"@.len());
    assert("photo_a"@.len() != "check_detect"@.len());
    assert("photo_a"@.len() != "antispoof"@.len());
    assert("photo_a"@.len() != "liveness"@.len());
    assert("photo_a"@.len() != "check_liveness"@.len());
    assert("photo_a"@.len() != "mask"@.len());
    assert("photo_a"@.len() != "apply_mask"@.len());
    assert("photo_a"@.len() != "use_mask"@.len());
    assert("photo_a"@.len() != "mask_face"@.len());
    assert("photo_b"@.len() != "detect"@.len());
    assert("photo_b"@.len() != "detect_face"@.len());
    assert("photo_b"@.len() != "check_detect"@.len());
    assert("photo_b"@.len() != "antispoof"@.len());
    assert("photo_b"@.len() != "liveness"@.len());
    assert("photo_b"@.len() != "check_liveness"@.len());
    assert("photo_b"@.len() != "mask"@.len());
    assert("photo_b"@.len() != "apply_mask"@.len());
    assert("photo_b"@.len() != "use_mask"@.len());
    assert("photo_b"@.len() != "mask_face"@.len());
    assert("detect"@.len() != "detect_face"@.len());
    assert("detect"@.len() != "check_detect"@.len());
    assert("detect"@.len() != "antispoof"@.len());
    assert("detect"@.len() != "liveness"@.len());
    assert("detect"@.len() != "check_liveness"@.len());
    assert("detect"@.len() != "mask"@.len());
    assert("detect"@.len() != "apply_mask"@.len());
    assert("detect"@.len() != "use_mask"@.len());
    assert("detect"@.len() != "mask_face"@.len());
    assert("detect_face"@.len() != "check_detect"@.len());
    assert("detect_face"@.len() != "antispoof"@.len());
    assert("detect_face"@.len() != "liveness"@.len());
    assert("detect_face"@.len() != "check_liveness"@.len());
    assert("detect_face"@.len() != "mask"@.len());
    assert("detect_face"@.len() != "apply_mask"@.len());
    assert("detect_face"@.len() != "use_mask"@.len());
    assert("detect_face"@.len() != "mask_face"@.len());
    assert("check_detect"@.len() != "antispoof"@.len());
    assert("check_detect"@.len() != "liveness"@.len());
    assert("check_detect"@.len() != "check_liveness"@.len());
    assert("check_detect"@.len() != "mask"@.len());
    assert("check_detect"@.len() != "apply_mask"@.len());
    assert("check_detect"@.len() != "use_mask"@.len());
    assert("check_detect"@.len() != "mask_face"@.len());
    assert("antispoof"@.len() != "liveness"@.len());
    assert("antispoof"@.len() != "check_liveness"@.len());
    assert("antispoof"@.len() != "mask"@.len());
    assert("antispoof"@.len() != "apply_mask"@.len());
    assert("antispoof"@.len() != "use_mask"@.len());
    assert("antispoof"@[0] != "mask_face"@[0]);
    assert("liveness"@.len() != "check_liveness"@.len());
    assert("liveness"@.len() != "mask"@.len());
    assert("liveness"@.len() != "apply_mask"@.len());
    assert("liveness"@[0] != "use_mask"@[0]);
    assert("liveness"@.len() != "mask_face"@.len());
    assert("check_liveness"@.len() != "mask"@.len());
    assert("check_liveness"@.len() != "apply_mask"@.len());
    assert("check_liveness"@.len() != "use_mask"@.len());
    assert("check_liveness"@.len() != "mask_face"@.len());
    assert("mask"@.len() != "apply_mask"@.len());
    assert("mask"@.len() != "use_mask"@.len());
    assert("mask"@.len() != "mask_face"@.len());
    assert("apply_mask"@.len() != "use_mask"@.len());
    assert("apply_mask"@.len() != "mask_face"@.len());
    assert("use_mask"@.len() != "mask_face"@.len());
}

} // verus!
