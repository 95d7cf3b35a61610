//! Enterprise events: the event record, its validation, processing results
//! and the rules that route events by type, source and metadata patterns.

use vstd::prelude::*;
use crate::clock::{new_uuid_string, utc_now_nanos};
use crate::error::{EnterpriseError, EnterpriseResult};
use crate::keyed::KeyedList;
use crate::text::{chars_match_at, owned, seq_ends_with, seq_starts_with, str_chars, str_eq};

verus! {

/// How urgently an event is to be handled.
#[derive(Debug, Clone, Copy, PartialEq, Eq, PartialOrd, Ord, Structural)]
pub enum EventPriority {
    Low,
    Normal,
    High,
    Critical,
}

/// Where an event is in its processing.
#[derive(Debug, Clone, Copy, PartialEq, Eq, Structural)]
pub enum EventStatus {
    Pending,
    Processing,
    Completed,
    Failed,
    Skipped,
}

/// An event of the enterprise layer.
#[derive(Debug, Clone)]
pub struct EnterpriseEvent {
    pub id: String,
    pub event_type: String,
    pub data: serde_json::Value,
    pub metadata: KeyedList<String>,
    /// Nanoseconds since the Unix epoch (UTC).
    pub timestamp: i64,
    pub source: String,
    pub version: String,
    pub trace_id: Option<String>,
    pub correlation_id: Option<String>,
    pub priority: EventPriority,
    pub status: EventStatus,
}

/// The current time in nanoseconds, or 0 when `i64` cannot hold it.
fn now_nanos() -> i64 {
    match utc_now_nanos() {
        Some(n) => n,
        None => 0,
    }
}

/// Which field an event fails validation on, if any: the identifier, the
/// type and the source must not be empty and the timestamp must be positive,
/// checked in that order.
pub open spec fn invalid_event_field(e: EnterpriseEvent) -> Option<Seq<char>> {
    if e.id@.len() == 0 {
        Some("id"@)
    } else if e.event_type@.len() == 0 {
        Some("event_type"@)
    } else if e.source@.len() == 0 {
        Some("source"@)
    } else if e.timestamp <= 0 {
        Some("timestamp"@)
    } else {
        None
    }
}

impl EnterpriseEvent {
    /// A pending event of normal priority, version "1.0", with a fresh
    /// identifier and the current time.
    pub fn new(event_type: &str, data: serde_json::Value, source: &str) -> (e: Self)
        ensures
            e.id@.len() == 36,
            e.event_type@ == event_type@,
            e.data == data,
            e.metadata.wf(),
            e.metadata.map() == Map::<Seq<char>, String>::empty(),
            e.source@ == source@,
            e.version@ == "1.0"@,
            e.trace_id is None,
            e.correlation_id is None,
            e.priority == EventPriority::Normal,
            e.status == EventStatus::Pending,
    {
        EnterpriseEvent {
            id: new_uuid_string(),
            event_type: owned(event_type),
            data,
            metadata: KeyedList::new(),
            timestamp: now_nanos(),
            source: owned(source),
            version: String::from_str("1.0"),
            trace_id: None,
            correlation_id: None,
            priority: EventPriority::Normal,
            status: EventStatus::Pending,
        }
    }

    /// The event with a trace identifier.
    pub fn with_trace_id(self, trace_id: &str) -> (e: Self)
        ensures
            e.trace_id matches Some(t) && t@ == trace_id@,
            e.id == self.id && e.event_type == self.event_type && e.source == self.source,
            e.metadata == self.metadata && e.priority == self.priority && e.status == self.status,
            e.correlation_id == self.correlation_id && e.version == self.version,
            e.timestamp == self.timestamp && e.data == self.data,
    {
        let mut e = self;
        e.trace_id = Some(owned(trace_id));
        e
    }

    /// The event with the identifier of a related event.
    pub fn with_correlation_id(self, correlation_id: &str) -> (e: Self)
        ensures
            e.correlation_id matches Some(c) && c@ == correlation_id@,
            e.id == self.id && e.event_type == self.event_type && e.source == self.source,
            e.metadata == self.metadata && e.priority == self.priority && e.status == self.status,
            e.trace_id == self.trace_id && e.version == self.version,
            e.timestamp == self.timestamp && e.data == self.data,
    {
        let mut e = self;
        e.correlation_id = Some(owned(correlation_id));
        e
    }

    /// The event with `priority`.
    pub fn with_priority(self, priority: EventPriority) -> (e: Self)
        ensures
            e.priority == priority,
            e.id == self.id && e.event_type == self.event_type && e.source == self.source,
            e.metadata == self.metadata && e.status == self.status,
            e.trace_id == self.trace_id && e.correlation_id == self.correlation_id && e.version == self.version,
            e.timestamp == self.timestamp && e.data == self.data,
    {
        let mut e = self;
        e.priority = priority;
        e
    }

    /// The event with `value` under the metadata key `key`.
    pub fn with_metadata(self, key: &str, value: &str) -> (e: Self)
        requires
            self.metadata.wf(),
        ensures
            e.metadata.wf(),
            e.metadata.map().contains_key(key@),
            e.metadata.map()[key@]@ == value@,
            forall|k: Seq<char>| k != key@ ==> #[trigger] e.metadata.map().contains_key(k)
                == self.metadata.map().contains_key(k) && (self.metadata.map().contains_key(k)
                ==> e.metadata.map()[k] == self.metadata.map()[k]),
            e.id == self.id && e.event_type == self.event_type && e.source == self.source,
            e.priority == self.priority && e.status == self.status,
            e.trace_id == self.trace_id && e.correlation_id == self.correlation_id && e.version == self.version,
            e.timestamp == self.timestamp && e.data == self.data,
    {
        let mut e = self;
        e.metadata.insert(owned(key), owned(value));
        e
    }

    /// The event with `version`.
    pub fn with_version(self, version: &str) -> (e: Self)
        ensures
            e.version@ == version@,
            e.id == self.id && e.event_type == self.event_type && e.source == self.source,
            e.metadata == self.metadata && e.priority == self.priority && e.status == self.status,
            e.trace_id == self.trace_id && e.correlation_id == self.correlation_id,
            e.timestamp == self.timestamp && e.data == self.data,
    {
        let mut e = self;
        e.version = owned(version);
        e
    }

    /// Sets the processing status.
    pub fn update_status(&mut self, status: EventStatus)
        ensures
            *final(self) == (EnterpriseEvent { status, ..*old(self) }),
    {
        self.status = status;
    }

    /// Checks the event: a validation error names the first field that is
    /// empty (identifier, type, source) or the timestamp when it is not
    /// positive.
    pub fn validate(&self) -> (r: EnterpriseResult<()>)
        ensures
            match invalid_event_field(*self) {
                None => r is Ok,
                Some(f) => r matches Err(EnterpriseError::Validation { field: Some(g), .. }) && g@ == f,
            },
    {
        if self.id.as_str().unicode_len() == 0 {
            return Err(EnterpriseError::validation("事件ID不能为空", Some(String::from_str("id"))));
        }
        if self.event_type.as_str().unicode_len() == 0 {
            return Err(EnterpriseError::validation("事件类型不能为空", Some(String::from_str("event_type"))));
        }
        if self.source.as_str().unicode_len() == 0 {
            return Err(EnterpriseError::validation("事件来源不能为空", Some(String::from_str("source"))));
        }
        if self.timestamp <= 0 {
            return Err(EnterpriseError::validation("事件时间戳无效", Some(String::from_str("timestamp"))));
        }
        Ok(())
    }

    /// A copy of the event under a fresh identifier and the current time,
    /// pending again; `data` is the JSON value the copy carries.
    pub fn clone_with_new_id(&self, data: serde_json::Value) -> (e: Self)
        requires
            self.metadata.wf(),
        ensures
            e.id@.len() == 36,
            e.event_type@ == self.event_type@,
            e.source@ == self.source@,
            e.version@ == self.version@,
            e.data == data,
            e.metadata.wf(),
            e.metadata.map().dom() == self.metadata.map().dom(),
            e.priority == self.priority,
            e.status == EventStatus::Pending,
    {
        EnterpriseEvent {
            id: new_uuid_string(),
            event_type: self.event_type.clone(),
            data,
            metadata: self.metadata.clone_strings(),
            timestamp: now_nanos(),
            source: self.source.clone(),
            version: self.version.clone(),
            trace_id: match &self.trace_id {
                Some(t) => Some(t.clone()),
                None => None,
            },
            correlation_id: match &self.correlation_id {
                Some(c) => Some(c.clone()),
                None => None,
            },
            priority: self.priority,
            status: EventStatus::Pending,
        }
    }
}

/// The outcome of processing one event.
#[derive(Debug, Clone)]
pub struct EventProcessingResult {
    pub event_id: String,
    pub status: EventStatus,
    pub processing_time_ms: u64,
    pub output_events: Vec<EnterpriseEvent>,
    pub error: Option<String>,
    pub processor_id: String,
    /// Nanoseconds since the Unix epoch (UTC).
    pub processed_at: i64,
}

impl EventProcessingResult {
    /// A completed outcome with no output event.
    pub fn success(event_id: &str, processing_time_ms: u64, processor_id: &str) -> (r: Self)
        ensures
            r.event_id@ == event_id@,
            r.status == EventStatus::Completed,
            r.processing_time_ms == processing_time_ms,
            r.output_events@.len() == 0,
            r.error is None,
            r.processor_id@ == processor_id@,
    {
        EventProcessingResult {
            event_id: owned(event_id),
            status: EventStatus::Completed,
            processing_time_ms,
            output_events: Vec::new(),
            error: None,
            processor_id: owned(processor_id),
            processed_at: now_nanos(),
        }
    }

    /// A failed outcome with the message `error` and no output event.
    pub fn failure(event_id: &str, processing_time_ms: u64, processor_id: &str, error: &str) -> (r: Self)
        ensures
            r.event_id@ == event_id@,
            r.status == EventStatus::Failed,
            r.processing_time_ms == processing_time_ms,
            r.output_events@.len() == 0,
            r.error matches Some(e) && e@ == error@,
            r.processor_id@ == processor_id@,
    {
        EventProcessingResult {
            event_id: owned(event_id),
            status: EventStatus::Failed,
            processing_time_ms,
            output_events: Vec::new(),
            error: Some(owned(error)),
            processor_id: owned(processor_id),
            processed_at: now_nanos(),
        }
    }

    /// The outcome with `events` as its output.
    pub fn with_output_events(self, events: Vec<EnterpriseEvent>) -> (r: Self)
        ensures
            r == (EventProcessingResult { output_events: events, ..self }),
    {
        let mut r = self;
        r.output_events = events;
        r
    }
}

/// The number of `*` characters in `p`.
pub open spec fn star_count(p: Seq<char>) -> nat
    decreases p.len(),
{
    if p.len() == 0 {
        0
    } else {
        star_count(p.drop_last()) + if p.last() == '*' { 1nat } else { 0nat }
    }
}

/// Whether `value` matches `pattern`: `*` matches everything; a pattern with
/// exactly one `*` matches the values made of the part before it, anything
/// (possibly nothing), and the part after it; any other pattern matches only
/// itself.
pub open spec fn pattern_matches(value: Seq<char>, pattern: Seq<char>) -> bool {
    if pattern == "*"@ {
        true
    } else if star_count(pattern) == 1 {
        exists|i: int|
            0 <= i < pattern.len() && #[trigger] pattern[i] == '*' && value.len() >= pattern.len() - 1
                && seq_starts_with(value, pattern.subrange(0, i))
                && seq_ends_with(value, pattern.subrange(i + 1, pattern.len() as int))
    } else {
        value == pattern
    }
}

/// Where an event is stored.
#[derive(Debug, Clone)]
pub enum EventStoreType {
    Memory,
    File { path: String },
    Database { db_type: String },
    ObjectStorage { bucket: String },
}

/// The configuration of an event store.
#[derive(Debug, Clone)]
pub struct EventStoreConfig {
    pub store_type: EventStoreType,
    pub connection_string: String,
    pub batch_size: usize,
    pub write_timeout_ms: u64,
    pub retention_days: u32,
    pub enable_compression: bool,
}

/// A rule that sends matching events to processors.
#[derive(Debug, Clone)]
pub struct EventRoutingRule {
    pub id: String,
    pub name: String,
    pub event_type_pattern: String,
    pub source_pattern: Option<String>,
    /// Metadata keys the event must carry, each with a value pattern.
    pub metadata_conditions: KeyedList<String>,
    pub target_processors: Vec<String>,
    pub priority: i32,
    pub enabled: bool,
}

/// Whether `rule` routes `event`: the rule is enabled, the event's type
/// matches the type pattern, its source matches the source pattern when
/// there is one, and it carries every metadata key of the conditions with a
/// value matching that condition's pattern.
pub open spec fn rule_matches(rule: EventRoutingRule, event: EnterpriseEvent) -> bool {
    &&& rule.enabled
    &&& pattern_matches(event.event_type@, rule.event_type_pattern@)
    &&& (rule.source_pattern matches Some(p) ==> pattern_matches(event.source@, p@))
    &&& forall|k: Seq<char>| #[trigger] rule.metadata_conditions.map().contains_key(k) ==> {
        &&& event.metadata.map().contains_key(k)
        &&& pattern_matches(event.metadata.map()[k]@, rule.metadata_conditions.map()[k]@)
    }
}

impl EventRoutingRule {
    /// An enabled rule of priority 0 with a fresh identifier, matching event
    /// types against `event_type_pattern`, with no source pattern or
    /// metadata condition.
    pub fn new(name: &str, event_type_pattern: &str, target_processors: Vec<String>) -> (r: Self)
        ensures
            r.id@.len() == 36,
            r.name@ == name@,
            r.event_type_pattern@ == event_type_pattern@,
            r.source_pattern is None,
            r.metadata_conditions.wf(),
            r.metadata_conditions.map() == Map::<Seq<char>, String>::empty(),
            r.target_processors == target_processors,
            r.priority == 0,
            r.enabled,
    {
        EventRoutingRule {
            id: new_uuid_string(),
            name: owned(name),
            event_type_pattern: owned(event_type_pattern),
            source_pattern: None,
            metadata_conditions: KeyedList::new(),
            target_processors,
            priority: 0,
            enabled: true,
        }
    }

    /// Whether the rule routes `event`.
    pub fn matches(&self, event: &EnterpriseEvent) -> (b: bool)
        requires
            self.metadata_conditions.wf(),
            event.metadata.wf(),
        ensures
            b == rule_matches(*self, *event),
    {
        if !self.enabled {
            return false;
        }
        if !self.matches_pattern(event.event_type.as_str(), self.event_type_pattern.as_str()) {
            return false;
        }
        match &self.source_pattern {
            Some(p) => {
                if !self.matches_pattern(event.source.as_str(), p.as_str()) {
                    return false;
                }
            },
            None => {},
        }
        let n = self.metadata_conditions.entry_count();
        let mut i: usize = 0;
        proof {
            self.metadata_conditions.lemma_model();
        }
        while i < n
            invariant
                self.metadata_conditions.wf(),
                event.metadata.wf(),
                n == self.metadata_conditions.entries().len(),
                i <= n,
                forall|j: int| 0 <= j < i ==> {
                    let k = #[trigger] self.metadata_conditions.entries()[j].0@;
                    &&& event.metadata.map().contains_key(k)
                    &&& pattern_matches(event.metadata.map()[k]@, self.metadata_conditions.map()[k]@)
                },
            decreases n - i,
        {
            proof {
                self.metadata_conditions.lemma_model();
            }
            let (key, expected) = self.metadata_conditions.entry_at(i);
            assert(self.metadata_conditions.map()[self.metadata_conditions.entries()[i as int].0@] == *expected);
            assert(self.metadata_conditions.map().contains_key(key@));
            match event.metadata.get(key.as_str()) {
                Some(actual) => {
                    if !self.matches_pattern(actual.as_str(), expected.as_str()) {
                        return false;
                    }
                },
                None => {
                    return false;
                },
            }
            i = i + 1;
        }
        proof {
            self.metadata_conditions.lemma_model();
            assert forall|k: Seq<char>| #[trigger] self.metadata_conditions.map().contains_key(k) implies {
                &&& event.metadata.map().contains_key(k)
                &&& pattern_matches(event.metadata.map()[k]@, self.metadata_conditions.map()[k]@)
            } by {
                assert(self.metadata_conditions.key_order().contains(k));
                let j = choose|j: int| 0 <= j < self.metadata_conditions.key_order().len()
                    && self.metadata_conditions.key_order()[j] == k;
                assert(self.metadata_conditions.entries()[j].0@ == k);
            }
        }
        true
    }

    /// Whether `value` matches `pattern`, with `*` as a wildcard.
    pub fn matches_pattern(&self, value: &str, pattern: &str) -> (b: bool)
        ensures
            b == pattern_matches(value@, pattern@),
    {
        if str_eq(pattern, "*") {
            return true;
        }
        let pc = str_chars(pattern);
        let vc = str_chars(value);
        let mut count: usize = 0;
        let mut first: usize = 0;
        let mut i: usize = 0;
        while i < pc.len()
            invariant
                pc@ == pattern@,
                i <= pc@.len(),
                count == star_count(pc@.subrange(0, i as int)),
                count <= i,
                count == 0 ==> forall|k: int| 0 <= k < i ==> pc@[k] != '*',
                count >= 1 ==> first < i && pc@[first as int] == '*',
                count == 1 ==> forall|k: int| 0 <= k < i && pc@[k] == '*' ==> k == first,
            decreases pc.len() - i,
        {
            assert(pc@.subrange(0, i + 1).drop_last() =~= pc@.subrange(0, i as int));
            if pc[i] == '*' {
                if count == 0 {
                    first = i;
                }
                count = count + 1;
            }
            i = i + 1;
        }
        assert(pc@.subrange(0, i as int) =~= pc@);
        if count == 1 {
            let suffix_len = pc.len() - first - 1;
            let starts = chars_match_at(&vc, 0, &pc, 0, first);
            let ends = if suffix_len <= vc.len() {
                chars_match_at(&vc, vc.len() - suffix_len, &pc, first + 1, pc.len())
            } else {
                false
            };
            proof {
                if vc.len() >= pc.len() - 1 && starts && ends {
                    assert(pattern@[first as int] == '*');
                } else {
                    assert forall|j: int| 0 <= j < pattern@.len() && #[trigger] pattern@[j] == '*' implies !(
                    value@.len() >= pattern@.len() - 1 && seq_starts_with(value@, pattern@.subrange(0, j)) && seq_ends_with(
                        value@,
                        pattern@.subrange(j + 1, pattern@.len() as int),
                    )) by {
                        assert(j == first);
                    }
                }
            }
            return vc.len() >= pc.len() - 1 && starts && ends;
        }
        str_eq(value, pattern)
    }
}

} // verus!
