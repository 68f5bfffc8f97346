//! Identity and scope types for the registry.
//!
//! **Scoping model:** a face can be registered [`RegistrationScope::Global`]
//! (recognized everywhere) or under a specific [`RegistrationScope::Event`]
//! (recognized only when the recognizer is given that same event as its
//! [`RecognitionContext`]). When recognizing *within* an event context, both
//! the global registry and that event's registry are searched together — a
//! globally-registered person is always found; someone registered only for
//! event A is invisible while recognizing under event B.

use vstd::prelude::*;
use vstd::string::*;

verus! {

/// The identifier of an event (a conference, a check-in desk, ...).
#[derive(Debug)]
pub struct EventId(pub String);

/// The identifier of an enrolled person.
#[derive(Debug)]
pub struct PersonId(pub String);

impl EventId {
    /// The identifier's text.
    pub open spec fn text(&self) -> Seq<char> {
        self.0@
    }

    /// A copy of this identifier.
    pub fn duplicate(&self) -> (r: EventId)
        ensures
            r == *self,
    {
        EventId(self.0.clone())
    }

    /// Whether two identifiers have the same text.
    pub fn same_as(&self, other: &EventId) -> (r: bool)
        ensures
            r == (self.text() == other.text()),
    {
        self.0 == other.0
    }

    /// The identifier as displayed: its text.
    pub fn display_string(&self) -> (r: String)
        ensures
            r@ == self.text(),
    {
        self.0.clone()
    }
}

impl PersonId {
    /// The identifier's text.
    pub open spec fn text(&self) -> Seq<char> {
        self.0@
    }

    /// A copy of this identifier.
    pub fn duplicate(&self) -> (r: PersonId)
        ensures
            r == *self,
    {
        PersonId(self.0.clone())
    }

    /// Whether two identifiers have the same text.
    pub fn same_as(&self, other: &PersonId) -> (r: bool)
        ensures
            r == (self.text() == other.text()),
    {
        self.0 == other.0
    }

    /// The identifier as displayed: its text.
    pub fn display_string(&self) -> (r: String)
        ensures
            r@ == self.text(),
    {
        self.0.clone()
    }
}

impl From<&str> for EventId {
    fn from(s: &str) -> (r: EventId)
        ensures
            r.text() == s@,
    {
        EventId(String::from_str(s))
    }
}

impl vstd::std_specs::convert::FromSpecImpl<&str> for EventId {
    open spec fn obeys_from_spec() -> bool {
        false
    }

    open spec fn from_spec(v: &str) -> EventId {
        arbitrary()
    }
}

impl From<String> for EventId {
    fn from(s: String) -> (r: EventId)
        ensures
            r.text() == s@,
    {
        EventId(s)
    }
}

impl vstd::std_specs::convert::FromSpecImpl<String> for EventId {
    open spec fn obeys_from_spec() -> bool {
        true
    }

    open spec fn from_spec(v: String) -> EventId {
        EventId(v)
    }
}

impl From<&str> for PersonId {
    fn from(s: &str) -> (r: PersonId)
        ensures
            r.text() == s@,
    {
        PersonId(String::from_str(s))
    }
}

impl vstd::std_specs::convert::FromSpecImpl<&str> for PersonId {
    open spec fn obeys_from_spec() -> bool {
        false
    }

    open spec fn from_spec(v: &str) -> PersonId {
        arbitrary()
    }
}

impl From<String> for PersonId {
    fn from(s: String) -> (r: PersonId)
        ensures
            r.text() == s@,
    {
        PersonId(s)
    }
}

impl vstd::std_specs::convert::FromSpecImpl<String> for PersonId {
    open spec fn obeys_from_spec() -> bool {
        true
    }

    open spec fn from_spec(v: String) -> PersonId {
        PersonId(v)
    }
}

/// Where a single registration (one embedding sample) lives.
#[derive(Debug)]
pub enum RegistrationScope {
    /// Recognized regardless of event context.
    Global,
    /// Recognized only when the recognizer's [`RecognitionContext`] names
    /// this same event.
    Event(EventId),
}

/// The text `"global"`.
pub open spec fn global_text() -> Seq<char> {
    seq!['g', 'l', 'o', 'b', 'a', 'l']
}

/// The text `"event:"`.
pub open spec fn event_prefix_text() -> Seq<char> {
    seq!['e', 'v', 'e', 'n', 't', ':']
}

impl RegistrationScope {
    /// Whether two scopes name the same registry (both global, or events
    /// with the same identifier text).
    pub open spec fn same_scope(&self, other: &RegistrationScope) -> bool {
        match (self, other) {
            (RegistrationScope::Global, RegistrationScope::Global) => true,
            (RegistrationScope::Event(a), RegistrationScope::Event(b)) => a.text() == b.text(),
            _ => false,
        }
    }

    /// The scope as displayed: `global`, or `event:` followed by the event id.
    pub open spec fn display_text(&self) -> Seq<char> {
        match self {
            RegistrationScope::Global => global_text(),
            RegistrationScope::Event(id) => event_prefix_text() + id.text(),
        }
    }

    /// The event whose search index holds this scope's registrations
    /// (`None`: the global index).
    pub open spec fn index_event_of(&self) -> Option<EventId> {
        match self {
            RegistrationScope::Global => None,
            RegistrationScope::Event(e) => Some(*e),
        }
    }

    /// The event whose search index a registration in this scope goes to;
    /// `None` routes it to the global index.
    pub fn index_event(&self) -> (r: Option<&EventId>)
        ensures
            match self.index_event_of() {
                Some(e) => r is Some && *r->0 == e,
                None => r is None,
            },
    {
        match self {
            RegistrationScope::Global => None,
            RegistrationScope::Event(e) => Some(e),
        }
    }

    /// A copy of this scope.
    pub fn duplicate(&self) -> (r: RegistrationScope)
        ensures
            r == *self,
    {
        match self {
            RegistrationScope::Global => RegistrationScope::Global,
            RegistrationScope::Event(id) => RegistrationScope::Event(id.duplicate()),
        }
    }

    /// The scope as displayed: `global`, or `event:` followed by the event id.
    pub fn display_string(&self) -> (r: String)
        ensures
            r@ == self.display_text(),
    {
        match self {
            RegistrationScope::Global => {
                let r = String::from_str("global");
                proof {
                    reveal_strlit("global");
                }
                r
            },
            RegistrationScope::Event(id) => {
                let mut r = String::from_str("event:");
                proof {
                    reveal_strlit("event:");
                }
                r.append(id.0.as_str());
                r
            },
        }
    }
}

/// Which registrations to search when recognizing a probe face.
///
/// The global registry is *always* included; naming an event additionally
/// searches that event's registry. There is deliberately no "search all
/// events" mode — cross-event visibility has to be opted into per person by
/// registering them globally, not granted implicitly by the query.
#[derive(Debug)]
pub enum RecognitionContext {
    GlobalOnly,
    Event(EventId),
}

impl RecognitionContext {
    /// The event this context names, if any.
    pub open spec fn named_event(&self) -> Option<EventId> {
        match self {
            RecognitionContext::Event(id) => Some(*id),
            RecognitionContext::GlobalOnly => None,
        }
    }

    /// Whether a registration in `scope` can be recognized under this
    /// context: global registrations always, event registrations only under
    /// that same event.
    pub open spec fn sees(&self, scope: RegistrationScope) -> bool {
        match scope {
            RegistrationScope::Global => true,
            RegistrationScope::Event(e) => match self {
                RecognitionContext::Event(c) => c.text() == e.text(),
                RecognitionContext::GlobalOnly => false,
            },
        }
    }

    /// The event this context names, if any.
    pub fn event(&self) -> (r: Option<&EventId>)
        ensures
            match self.named_event() {
                Some(e) => r is Some && *r->0 == e,
                None => r is None,
            },
    {
        match self {
            RecognitionContext::Event(id) => Some(id),
            RecognitionContext::GlobalOnly => None,
        }
    }

    /// A copy of this context.
    pub fn duplicate(&self) -> (r: RecognitionContext)
        ensures
            r == *self,
    {
        match self {
            RecognitionContext::GlobalOnly => RecognitionContext::GlobalOnly,
            RecognitionContext::Event(id) => RecognitionContext::Event(id.duplicate()),
        }
    }
}

/// Routing and searching agree with visibility: a context searches the
/// index a registration is routed to (the global index always, an event's
/// index only under that event) exactly when it may see that registration.
pub proof fn law_searched_index_is_visible_scope(scope: RegistrationScope, context: RecognitionContext)
    ensures
        (match scope.index_event_of() {
            None => true,
            Some(e) => match context.named_event() {
                Some(c) => c.text() == e.text(),
                None => false,
            },
        }) <==> context.sees(scope),
{
}

/// A scope is displayed as `global` or as `event:` followed by the event
/// id, and two scopes are displayed alike exactly when they name the same
/// registry, so the displayed text can be read back unambiguously.
pub proof fn law_scope_display_is_faithful(a: RegistrationScope, b: RegistrationScope)
    ensures
        RegistrationScope::Global.display_text() == "global"@,
        a matches RegistrationScope::Event(e) ==> a.display_text() == "event:"@ + e.text(),
        a.display_text() == b.display_text() <==> a.same_scope(&b),
{
    reveal_strlit("global");
    reveal_strlit("event:");
    assert(global_text() =~= "global"@);
    assert(event_prefix_text() =~= "event:"@);
    match (a, b) {
        (RegistrationScope::Event(x), RegistrationScope::Event(y)) => {
            let p = event_prefix_text();
            if a.display_text() == b.display_text() {
                assert((p + x.text()).subrange(6, (p + x.text()).len() as int) =~= x.text());
                assert((p + y.text()).subrange(6, (p + y.text()).len() as int) =~= y.text());
            }
        },
        (RegistrationScope::Global, RegistrationScope::Event(y)) => {
            assert(b.display_text()[0] == 'e');
            assert(a.display_text()[0] == 'g');
        },
        (RegistrationScope::Event(x), RegistrationScope::Global) => {
            assert(a.display_text()[0] == 'e');
            assert(b.display_text()[0] == 'g');
        },
        _ => {},
    }
}

impl Default for RecognitionContext {
    fn default() -> (r: RecognitionContext)
        ensures
            r == RecognitionContext::GlobalOnly,
    {
        RecognitionContext::GlobalOnly
    }
}

} // verus!
