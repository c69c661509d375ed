//! Event translator: turns runtime lifecycle events into persistable action
//! records, maintaining per-session sequencing and turn-scoped causal
//! context.
//!
//! One translator instance exists per session and exclusively owns its state:
//! a turn counter, a per-turn sequence counter, the kind of the previous
//! event in the turn, the ordered kind history of the turn, and a one-shot
//! "next event is user-initiated" flag. The embedding program guards each
//! instance so concurrent callers never observe a half-updated view.

use vstd::prelude::*;
use crate::clock::{now_epoch_ms, now_rfc3339};
use crate::store::{ActionRecord, SubmitOutcome, TelemetrySqliteStore};
use crate::textenc::{dec_digits, encode_string_list, json_string_list, u64_to_dec_string};
use vstd::string::StringExecFns;

verus! {

/// A lifecycle event from the agent runtime, reduced to the fields the
/// translator reads. Durations arrive as whole milliseconds. `Other` stands
/// for every event kind this subsystem does not persist.
pub enum ObserverEvent {
    /// The session's agent starts a user-initiated turn.
    AgentStart,
    /// A language-model response completed.
    LlmResponse {
        provider: String,
        model: String,
        duration_ms: u64,
        success: bool,
        error_message: Option<String>,
        tokens_in: Option<u64>,
        tokens_out: Option<u64>,
    },
    /// A tool invocation completed.
    ToolCall {
        tool: String,
        duration_ms: u64,
        success: bool,
        arguments_hash: Option<String>,
        iteration: Option<u32>,
    },
    /// The current turn ended.
    TurnComplete,
    /// Any other lifecycle event: ignored.
    Other,
}

/// The translator's session state, as contracts see it.
#[verifier::ext_equal]
pub struct ObserverModel {
    pub session_id: Seq<char>,
    pub turn_counter: int,
    pub sequence_counter: int,
    pub previous_action_type: Option<Seq<char>>,
    pub turn_action_sequence: Seq<Seq<char>>,
    pub is_user_initiated: bool,
}

/// A counter bump that stops at the register's ceiling instead of wrapping.
pub open spec fn bump(n: int) -> int {
    if n < u64::MAX {
        n + 1
    } else {
        n
    }
}

/// The saturating narrowing of a sequence-counter value into an `i64` column.
pub open spec fn to_i64_sat(n: int) -> int {
    if n <= i64::MAX {
        n
    } else {
        i64::MAX as int
    }
}

/// True for the events that produce a record.
pub open spec fn produces_record(e: ObserverEvent) -> bool {
    e is LlmResponse || e is ToolCall
}

/// How one event transforms the translator's state.
///
/// A record-producing event advances the sequence counter, becomes the
/// "previous" kind, and appends its kind to the turn history; a completed
/// turn advances the turn counter and clears the per-turn state; an agent
/// start arms the one-shot user-initiated flag, which the next LLM response
/// consumes.
pub open spec fn observer_step(m: ObserverModel, e: ObserverEvent) -> ObserverModel {
    match e {
        ObserverEvent::AgentStart => ObserverModel { is_user_initiated: true, ..m },
        ObserverEvent::LlmResponse { .. } => ObserverModel {
            sequence_counter: bump(m.sequence_counter),
            previous_action_type: Some("llm_response"@),
            turn_action_sequence: m.turn_action_sequence.push("llm_response"@),
            is_user_initiated: false,
            ..m
        },
        ObserverEvent::ToolCall { .. } => ObserverModel {
            sequence_counter: bump(m.sequence_counter),
            previous_action_type: Some("tool_call"@),
            turn_action_sequence: m.turn_action_sequence.push("tool_call"@),
            ..m
        },
        ObserverEvent::TurnComplete => ObserverModel {
            turn_counter: bump(m.turn_counter),
            sequence_counter: 0,
            previous_action_type: None,
            turn_action_sequence: Seq::empty(),
            ..m
        },
        ObserverEvent::Other => m,
    }
}

/// The turn identifier derived from a session id and a turn counter.
pub open spec fn spec_turn_id(session: Seq<char>, turn: int) -> Seq<char> {
    session + "-t"@ + dec_digits(turn)
}

/// What a produced record holds, given the state at the moment of the event.
/// The two timestamp fields are the clock's and are not constrained here.
pub open spec fn record_for(rec: ActionRecord, m: ObserverModel, e: ObserverEvent) -> bool {
    &&& rec.session_id@ == m.session_id
    &&& rec.turn_id@ == spec_turn_id(m.session_id, m.turn_counter)
    &&& rec.sequence_index == to_i64_sat(m.sequence_counter)
    &&& (match m.previous_action_type {
        None => rec.previous_action_type is None,
        Some(p) => rec.previous_action_type matches Some(q) && q@ == p,
    })
    &&& (rec.turn_action_sequence matches Some(s) && s@ == json_string_list(
        m.turn_action_sequence,
    ))
    &&& rec.tool_type_embedding is None
    &&& (match e {
        ObserverEvent::LlmResponse {
            provider,
            model,
            duration_ms,
            success,
            error_message,
            tokens_in,
            tokens_out,
        } => {
            &&& rec.event_type@ == "llm_response"@
            &&& rec.provider == Some(provider)
            &&& rec.model == Some(model)
            &&& rec.tool_name is None
            &&& rec.arguments_hash is None
            &&& rec.tool_success == Some(success)
            &&& rec.duration_ms matches Some(d) && d == to_i64_sat(duration_ms as int)
            &&& (match tokens_in {
                None => rec.tokens_in is None,
                Some(t) => rec.tokens_in matches Some(v) && v == to_i64_sat(t as int),
            })
            &&& (match tokens_out {
                None => rec.tokens_out is None,
                Some(t) => rec.tokens_out matches Some(v) && v == to_i64_sat(t as int),
            })
            &&& rec.is_user_initiated == m.is_user_initiated
            &&& rec.iteration_index == 0
            &&& rec.error_message == error_message
        },
        ObserverEvent::ToolCall { tool, duration_ms, success, arguments_hash, iteration } => {
            &&& rec.event_type@ == "tool_call"@
            &&& rec.provider is None
            &&& rec.model is None
            &&& rec.tool_name == Some(tool)
            &&& rec.arguments_hash == arguments_hash
            &&& rec.tool_success == Some(success)
            &&& rec.duration_ms matches Some(d) && d == to_i64_sat(duration_ms as int)
            &&& rec.tokens_in is None
            &&& rec.tokens_out is None
            &&& !rec.is_user_initiated
            &&& rec.iteration_index == (match iteration {
                None => 0,
                Some(it) => it as int,
            })
            &&& rec.error_message is None
        },
        _ => false,
    })
}

/// Observer implementation that translates lifecycle events into telemetry
/// action records for the research database.
pub struct TelemetryObserver {
    pub session_id: String,
    pub turn_counter: u64,
    pub sequence_counter: u64,
    pub previous_action_type: Option<String>,
    pub turn_action_sequence: Vec<String>,
    pub is_user_initiated: bool,
}

impl TelemetryObserver {
    pub open spec fn model(&self) -> ObserverModel {
        ObserverModel {
            session_id: self.session_id@,
            turn_counter: self.turn_counter as int,
            sequence_counter: self.sequence_counter as int,
            previous_action_type: match self.previous_action_type {
                None => None,
                Some(p) => Some(p@),
            },
            turn_action_sequence: self.turn_action_sequence@.map_values(|s: String| s@),
            is_user_initiated: self.is_user_initiated,
        }
    }

    /// A fresh translator for one session: counters at zero, no history, and
    /// the user-initiated flag unarmed.
    pub fn new(session_id: String) -> (r: Self)
        ensures
            r.model() == (ObserverModel {
                session_id: session_id@,
                turn_counter: 0,
                sequence_counter: 0,
                previous_action_type: None,
                turn_action_sequence: Seq::empty(),
                is_user_initiated: false,
            }),
    {
        let r = TelemetryObserver {
            session_id,
            turn_counter: 0,
            sequence_counter: 0,
            previous_action_type: None,
            turn_action_sequence: Vec::new(),
            is_user_initiated: false,
        };
        proof {
            assert(r.model().turn_action_sequence =~= Seq::<Seq<char>>::empty());
            assert(r.model() =~= (ObserverModel {
                session_id: r.session_id@,
                turn_counter: 0,
                sequence_counter: 0,
                previous_action_type: None,
                turn_action_sequence: Seq::empty(),
                is_user_initiated: false,
            }));
        }
        r
    }

    /// The current value of the per-turn counter, which then advances
    /// (stopping at the register's ceiling rather than wrapping), narrowed
    /// for the record's column.
    fn next_sequence(&mut self) -> (r: i64)
        ensures
            *final(self) == (TelemetryObserver {
                sequence_counter: final(self).sequence_counter,
                ..*old(self)
            }),
            final(self).sequence_counter as int == bump(old(self).sequence_counter as int),
            r as int == to_i64_sat(old(self).sequence_counter as int),
    {
        let cur = self.sequence_counter;
        if cur < u64::MAX {
            self.sequence_counter = cur + 1;
        }
        if cur <= i64::MAX as u64 {
            cur as i64
        } else {
            i64::MAX
        }
    }

    /// The turn identifier for the current turn: the session id, a `-t`
    /// separator, and the decimal turn counter.
    pub fn turn_id(&self) -> (r: String)
        ensures
            r@ == spec_turn_id(self.session_id@, self.turn_counter as int),
    {
        let mut s = self.session_id.clone();
        s.append("-t");
        let digits = u64_to_dec_string(self.turn_counter);
        s.append(digits.as_str());
        s
    }

    /// Translate one lifecycle event: update the session state as
    /// `observer_step` says and return the produced record, if the event is
    /// one of the two persisted kinds.
    pub fn record_event(&mut self, event: &ObserverEvent) -> (r: Option<ActionRecord>)
        ensures
            final(self).model() == observer_step(old(self).model(), *event),
            r is Some <==> produces_record(*event),
            r matches Some(rec) ==> record_for(rec, old(self).model(), *event),
    {
        match event {
            ObserverEvent::AgentStart => {
                self.is_user_initiated = true;
                proof {
                    assert(final(self).model() =~= observer_step(old(self).model(), *event));
                }
                None
            },
            ObserverEvent::LlmResponse {
                provider,
                model,
                duration_ms,
                success,
                error_message,
                tokens_in,
                tokens_out,
            } => {
                let ts = now_rfc3339();
                let ts_epoch_ms = now_epoch_ms();
                let seq = self.next_sequence();
                let prev = clone_opt_string(&self.previous_action_type);
                let action_seq = encode_string_list(&self.turn_action_sequence);
                let user_init = self.is_user_initiated;
                let record = ActionRecord {
                    ts,
                    ts_epoch_ms,
                    session_id: self.session_id.clone(),
                    turn_id: self.turn_id(),
                    sequence_index: seq,
                    event_type: String::from_str("llm_response"),
                    provider: Some(provider.clone()),
                    model: Some(model.clone()),
                    tool_name: None,
                    tool_type_embedding: None,
                    arguments_hash: None,
                    tool_success: Some(*success),
                    duration_ms: Some(sat_ms(*duration_ms)),
                    tokens_in: sat_opt(tokens_in),
                    tokens_out: sat_opt(tokens_out),
                    is_user_initiated: user_init,
                    iteration_index: 0,
                    previous_action_type: prev,
                    turn_action_sequence: action_seq,
                    error_message: clone_opt_string(error_message),
                };
                self.turn_action_sequence.push(String::from_str("llm_response"));
                self.previous_action_type = Some(String::from_str("llm_response"));
                // Clear the one-shot flag after its first use in the turn.
                if user_init {
                    self.is_user_initiated = false;
                }
                proof {
                    assert(final(self).model().turn_action_sequence =~= observer_step(
                        old(self).model(),
                        *event,
                    ).turn_action_sequence);
                    assert(final(self).model() =~= observer_step(old(self).model(), *event));
                }
                Some(record)
            },
            ObserverEvent::ToolCall { tool, duration_ms, success, arguments_hash, iteration } => {
                let ts = now_rfc3339();
                let ts_epoch_ms = now_epoch_ms();
                let seq = self.next_sequence();
                let prev = clone_opt_string(&self.previous_action_type);
                let action_seq = encode_string_list(&self.turn_action_sequence);
                let iteration_index: i64 = match iteration {
                    Some(it) => *it as i64,
                    None => 0,
                };
                let record = ActionRecord {
                    ts,
                    ts_epoch_ms,
                    session_id: self.session_id.clone(),
                    turn_id: self.turn_id(),
                    sequence_index: seq,
                    event_type: String::from_str("tool_call"),
                    provider: None,
                    model: None,
                    tool_name: Some(tool.clone()),
                    tool_type_embedding: None,
                    arguments_hash: clone_opt_string(arguments_hash),
                    tool_success: Some(*success),
                    duration_ms: Some(sat_ms(*duration_ms)),
                    tokens_in: None,
                    tokens_out: None,
                    is_user_initiated: false,
                    iteration_index,
                    previous_action_type: prev,
                    turn_action_sequence: action_seq,
                    error_message: None,
                };
                self.turn_action_sequence.push(String::from_str("tool_call"));
                self.previous_action_type = Some(String::from_str("tool_call"));
                proof {
                    assert(final(self).model().turn_action_sequence =~= observer_step(
                        old(self).model(),
                        *event,
                    ).turn_action_sequence);
                    assert(final(self).model() =~= observer_step(old(self).model(), *event));
                }
                Some(record)
            },
            ObserverEvent::TurnComplete => {
                if self.turn_counter < u64::MAX {
                    self.turn_counter = self.turn_counter + 1;
                }
                self.sequence_counter = 0;
                self.previous_action_type = None;
                self.turn_action_sequence = Vec::new();
                proof {
                    assert(final(self).model().turn_action_sequence =~= Seq::<Seq<char>>::empty());
                    assert(final(self).model() =~= observer_step(old(self).model(), *event));
                }
                None
            },
            ObserverEvent::Other => {
                None
            },
        }
    }

    /// Translate one event and hand any produced record to the store's
    /// non-blocking submission path. Reports how the submission fared —
    /// `None` when the event produces no record — so the embedding program
    /// can raise its overload warning on a drop.
    pub fn record_event_to(
        &mut self,
        store: &TelemetrySqliteStore,
        event: &ObserverEvent,
    ) -> (r: Option<SubmitOutcome>)
        ensures
            final(self).model() == observer_step(old(self).model(), *event),
            r is Some <==> produces_record(*event),
    {
        match self.record_event(event) {
            Some(record) => Some(store.submit_action(record)),
            None => None,
        }
    }
}

/// Saturating narrowing of a millisecond duration into the record column.
fn sat_ms(ms: u64) -> (r: i64)
    ensures
        r as int == to_i64_sat(ms as int),
{
    if ms <= i64::MAX as u64 {
        ms as i64
    } else {
        i64::MAX
    }
}

/// Saturating narrowing of an optional token count.
fn sat_opt(t: &Option<u64>) -> (r: Option<i64>)
    ensures
        match *t {
            None => r is None,
            Some(v) => r matches Some(x) && x as int == to_i64_sat(v as int),
        },
{
    match t {
        Some(v) => Some(sat_ms(*v)),
        None => None,
    }
}

/// The state after a whole sequence of events, first event first.
pub open spec fn run_steps(m: ObserverModel, events: Seq<ObserverEvent>) -> ObserverModel
    decreases events.len(),
{
    if events.len() == 0 {
        m
    } else {
        run_steps(observer_step(m, events[0]), events.drop_first())
    }
}

/// The sequence-counter values stamped onto the records that `events`
/// produce, starting from state `m`, in production order.
pub open spec fn produced_indices(m: ObserverModel, events: Seq<ObserverEvent>) -> Seq<int>
    decreases events.len(),
{
    if events.len() == 0 {
        Seq::empty()
    } else {
        let rest = produced_indices(observer_step(m, events[0]), events.drop_first());
        if produces_record(events[0]) {
            seq![m.sequence_counter] + rest
        } else {
            rest
        }
    }
}

/// Law: completing a turn increments the turn counter by exactly one and
/// resets the per-turn sequence counter to 0, the previous kind, and the
/// kind history. (At the counter's u64 ceiling — unreachable in practice —
/// the increment saturates, so that state is left out here.)
pub proof fn lemma_turn_complete_resets(m: ObserverModel)
    requires
        m.turn_counter < u64::MAX,
    ensures
        observer_step(m, ObserverEvent::TurnComplete).turn_counter == m.turn_counter + 1,
        observer_step(m, ObserverEvent::TurnComplete).sequence_counter == 0,
        observer_step(m, ObserverEvent::TurnComplete).previous_action_type is None,
        observer_step(m, ObserverEvent::TurnComplete).turn_action_sequence == Seq::<
            Seq<char>,
        >::empty(),
        observer_step(m, ObserverEvent::TurnComplete).session_id == m.session_id,
        observer_step(m, ObserverEvent::TurnComplete).is_user_initiated == m.is_user_initiated,
{
}

/// Law: within one turn — no turn-complete among the events — the sequence
/// indices of the records the events produce are strictly increasing and
/// contiguous, starting at the counter's value when the run begins; in a
/// fresh turn that value is 0. (`record_for` stamps exactly these counter
/// values, unnarrowed as long as they stay within `i64`.)
pub proof fn lemma_sequence_indices_contiguous(m: ObserverModel, events: Seq<ObserverEvent>)
    requires
        0 <= m.sequence_counter,
        m.sequence_counter + events.len() <= u64::MAX,
        forall|i: int| 0 <= i < events.len() ==> !(#[trigger] events[i] is TurnComplete),
    ensures
        produced_indices(m, events).len() <= events.len(),
        forall|k: int|
            0 <= k < produced_indices(m, events).len() ==> #[trigger] produced_indices(m, events)[k]
                == m.sequence_counter + k,
    decreases events.len(),
{
    if events.len() > 0 {
        let e = events[0];
        let m2 = observer_step(m, e);
        let rest = events.drop_first();
        assert(forall|i: int| 0 <= i < rest.len() ==> !(#[trigger] rest[i] is TurnComplete)) by {
            assert(forall|i: int|
                0 <= i < rest.len() ==> rest[i] == #[trigger] events[i + 1] && !(events[i + 1]
                    is TurnComplete));
        }
        lemma_sequence_indices_contiguous(m2, rest);
        if produces_record(e) {
            assert(m2.sequence_counter == m.sequence_counter + 1);
            assert forall|k: int| 0 <= k < produced_indices(m, events).len() implies #[trigger]
            produced_indices(m, events)[k] == m.sequence_counter + k by {
                if k > 0 {
                    assert(produced_indices(m, events)[k] == produced_indices(m2, rest)[k - 1]);
                }
            }
        }
    }
}

/// A deep copy of an optional string.
fn clone_opt_string(s: &Option<String>) -> (r: Option<String>)
    ensures
        r == *s,
{
    match s {
        Some(p) => Some(p.clone()),
        None => None,
    }
}

} // verus!

