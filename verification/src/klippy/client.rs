//! The decisions of the Klippy connection: reconnect delays, request ids,
//! pending replies and printer status notifications. The caller owns the
//! socket, the channels and the clock; it hands every event to a
//! [`KlippySession`] and carries out the action that comes back.
use vstd::prelude::*;

use crate::json::{
    is_json_str, json_str, key_at, lemma_member_lookup_absent, lemma_member_lookup_found,
    member_index, JsonNumber, JsonValue,
};
use crate::text::{ascii_lowercase, is_ascii_text, str_equals, str_to_lowercase, to_lowercase};
use std::collections::HashSet;

verus! {

broadcast use vstd::std_specs::hash::group_hash_axioms;

/// The longest delay between two connection attempts, in seconds.
pub const MAX_BACKOFF_SECS: u64 = 32u64;

/// The delay before the next connection attempt: one second after a
/// connection, doubling after every attempt up to `MAX_BACKOFF_SECS`.
pub struct ReconnectBackoff {
    secs: u64,
}

/// The delays that the backoff takes: the powers of two from 1 to 32.
pub open spec fn is_backoff_delay(d: u64) -> bool {
    d == 1 || d == 2 || d == 4 || d == 8 || d == 16 || d == 32
}

/// The delay after one more attempt: twice the last, at most 32 seconds.
pub open spec fn next_backoff(d: nat) -> nat {
    if 2 * d <= MAX_BACKOFF_SECS {
        2 * d
    } else {
        MAX_BACKOFF_SECS as nat
    }
}

/// Two to the power `k`.
pub open spec fn two_to(k: nat) -> nat
    decreases k,
{
    if k == 0 {
        1
    } else {
        2 * two_to((k - 1) as nat)
    }
}

/// Waiting `delays[j]` seconds after attempt `j + 1` (counted from the
/// start or from the last connection made), the delays run 1, 2, 4, 8, 16,
/// 32, 32, ...: `min(2^j, 32)` seconds, never less than one.
pub proof fn law_backoff_doubles_to_cap(delays: Seq<nat>)
    requires
        delays.len() > 0,
        delays[0] == 1,
        forall|j: int| 0 <= j < delays.len() - 1 ==> delays[j + 1] == next_backoff(#[trigger] delays[j]),
    ensures
        forall|j: int|
            0 <= j < delays.len() ==> #[trigger] delays[j] == if two_to(j as nat) <= MAX_BACKOFF_SECS {
                two_to(j as nat)
            } else {
                MAX_BACKOFF_SECS as nat
            },
        forall|j: int| 0 <= j < delays.len() ==> 1 <= #[trigger] delays[j] <= MAX_BACKOFF_SECS,
    decreases delays.len(),
{
    if delays.len() > 1 {
        let prefix = delays.drop_last();
        assert forall|j: int| 0 <= j < prefix.len() - 1 implies prefix[j + 1] == next_backoff(
            #[trigger] prefix[j],
        ) by {
            assert(prefix[j] == delays[j] && prefix[j + 1] == delays[j + 1]);
        }
        law_backoff_doubles_to_cap(prefix);
        let last: int = delays.len() - 1;
        assert(prefix[last - 1] == delays[last - 1]);
        assert(delays[last] == next_backoff(delays[last - 1]));
        assert(two_to(last as nat) == 2 * two_to((last - 1) as nat));
        assert forall|j: int| 0 <= j < delays.len() - 1 implies #[trigger] delays[j] == prefix[j] by {
        }
    }
}

impl ReconnectBackoff {
    #[verifier::type_invariant]
    spec fn delay_in_range(self) -> bool {
        is_backoff_delay(self.secs)
    }

    /// The current delay in seconds.
    pub closed spec fn spec_delay(&self) -> u64 {
        self.secs
    }

    /// The first delay is one second.
    pub fn new() -> (r: Self)
        ensures
            r.spec_delay() == 1,
    {
        ReconnectBackoff { secs: 1 }
    }

    /// The delay to wait now, in seconds.
    pub fn delay_secs(&self) -> (r: u64)
        ensures
            r == self.spec_delay(),
            is_backoff_delay(r),
            1 <= r <= MAX_BACKOFF_SECS,
    {
        proof {
            use_type_invariant(self);
        }
        self.secs
    }

    /// A connection was made: the delay starts over at one second.
    pub fn on_connected(&mut self)
        ensures
            final(self).spec_delay() == 1,
    {
        self.secs = 1;
    }

    /// A connection attempt has ended and its delay was waited out: the
    /// delay doubles, capped at `MAX_BACKOFF_SECS`.
    pub fn after_attempt(&mut self)
        ensures
            final(self).spec_delay() == next_backoff(old(self).spec_delay() as nat),
    {
        proof {
            use_type_invariant(&*self);
        }
        let doubled: u64 = self.secs * 2;
        self.secs = if doubled <= MAX_BACKOFF_SECS {
            doubled
        } else {
            MAX_BACKOFF_SECS
        };
    }
}

/// What the printer reports itself to be doing.
#[derive(Debug, Clone, Copy, PartialEq, Eq, Structural)]
pub enum PrintStatus {
    Idle,
    Printing,
    Paused,
}

/// The status that a state text already in lowercase stands for.
pub open spec fn status_of_lowered(lower: Seq<char>) -> PrintStatus {
    if lower == "printing"@ {
        PrintStatus::Printing
    } else if lower == "paused"@ {
        PrintStatus::Paused
    } else {
        PrintStatus::Idle
    }
}

/// The status that a reported `print_stats.state` text stands for,
/// compared without regard to case.
pub open spec fn print_status_spec(state: Seq<char>) -> PrintStatus {
    status_of_lowered(str_to_lowercase(state))
}

impl PrintStatus {
    /// The status that a lowercased state text stands for.
    pub fn from_lowered_text(lower: &str) -> (r: PrintStatus)
        ensures
            r == status_of_lowered(lower@),
    {
        if str_equals(lower, "printing") {
            PrintStatus::Printing
        } else if str_equals(lower, "paused") {
            PrintStatus::Paused
        } else {
            PrintStatus::Idle
        }
    }

    /// The status that a reported state text stands for.
    pub fn from_state_text(state: &str) -> (r: PrintStatus)
        ensures
            r == print_status_spec(state@),
            is_ascii_text(state@) ==> r == status_of_lowered(ascii_lowercase(state@)),
    {
        let lower = to_lowercase(state);
        PrintStatus::from_lowered_text(lower.as_str())
    }

    /// The name shown for the status.
    pub fn label(&self) -> (r: &'static str)
        ensures
            *self == PrintStatus::Idle ==> r@ == "Idle"@,
            *self == PrintStatus::Printing ==> r@ == "Printing"@,
            *self == PrintStatus::Paused ==> r@ == "Paused"@,
    {
        match self {
            PrintStatus::Idle => "Idle",
            PrintStatus::Printing => "Printing",
            PrintStatus::Paused => "Paused",
        }
    }
}

/// New toolhead coordinates. A coordinate that was not reported as a number
/// is `None` and keeps its previous value.
#[derive(Debug, Clone, Copy, PartialEq, Eq, Structural)]
pub struct PositionUpdate {
    pub x: Option<JsonNumber>,
    pub y: Option<JsonNumber>,
    pub z: Option<JsonNumber>,
    pub e: Option<JsonNumber>,
}

/// The changes that one status notification makes to the printer state.
/// A field that is `None` keeps its previous value.
#[derive(Debug, Clone, Copy, PartialEq, Eq, Structural)]
pub struct StatusPatch {
    pub tool_temp: Option<JsonNumber>,
    pub target_temp: Option<JsonNumber>,
    pub position: Option<PositionUpdate>,
    pub print_status: Option<PrintStatus>,
    pub print_progress: Option<JsonNumber>,
}

impl StatusPatch {
    /// Whether the patch changes the state at all.
    pub open spec fn changes_state(self) -> bool {
        self.tool_temp is Some || self.target_temp is Some || self.position is Some
            || self.print_status is Some || self.print_progress is Some
    }
}

/// The member `inner` of the member `outer` of `obj`.
pub open spec fn nested(obj: JsonValue, outer: Seq<char>, inner: Seq<char>) -> Option<JsonValue> {
    match obj.spec_get(outer) {
        Some(o) => o.spec_get(inner),
        None => None,
    }
}

/// The number at `obj.outer.inner`.
pub open spec fn nested_number(obj: JsonValue, outer: Seq<char>, inner: Seq<char>) -> Option<
    JsonNumber,
> {
    match nested(obj, outer, inner) {
        Some(v) => v.spec_as_number(),
        None => None,
    }
}

/// The toolhead position: reported where `toolhead.position` is an array
/// of at least four elements.
pub open spec fn position_spec(obj: JsonValue) -> Option<PositionUpdate> {
    match nested(obj, "toolhead"@, "position"@) {
        Some(JsonValue::Array(p)) => if p@.len() >= 4 {
            Some(
                PositionUpdate {
                    x: p@[0].spec_as_number(),
                    y: p@[1].spec_as_number(),
                    z: p@[2].spec_as_number(),
                    e: p@[3].spec_as_number(),
                },
            )
        } else {
            None
        },
        _ => None,
    }
}

/// The print status: reported where `print_stats.state` is a string.
pub open spec fn print_status_field(obj: JsonValue) -> Option<PrintStatus> {
    match nested(obj, "print_stats"@, "state"@) {
        Some(JsonValue::String(s)) => Some(print_status_spec(s@)),
        _ => None,
    }
}

/// Everything a status object reports.
pub open spec fn patch_for(obj: JsonValue) -> StatusPatch {
    StatusPatch {
        tool_temp: nested_number(obj, "extruder"@, "temperature"@),
        target_temp: nested_number(obj, "extruder"@, "target"@),
        position: position_spec(obj),
        print_status: print_status_field(obj),
        print_progress: nested_number(obj, "print_stats"@, "progress"@),
    }
}

/// The status object of a notification: the first parameter of a
/// `notify_status_update`.
pub open spec fn status_object(method: Seq<char>, params: JsonValue) -> Option<JsonValue> {
    if method == "notify_status_update"@ {
        match params {
            JsonValue::Array(items) => if items@.len() > 0 {
                Some(items@[0])
            } else {
                None
            },
            _ => None,
        }
    } else {
        None
    }
}

/// The state change that a notification makes, or `None` where it changes
/// nothing.
pub open spec fn notification_patch(method: Seq<char>, params: JsonValue) -> Option<StatusPatch> {
    match status_object(method, params) {
        Some(obj) => if patch_for(obj).changes_state() {
            Some(patch_for(obj))
        } else {
            None
        },
        None => None,
    }
}

/// The number at `obj.outer.inner`.
fn nested_number_of(obj: &JsonValue, outer: &str, inner: &str) -> (r: Option<JsonNumber>)
    ensures
        r == nested_number(*obj, outer@, inner@),
{
    match obj.get(outer) {
        Some(o) => match o.get(inner) {
            Some(v) => v.as_number(),
            None => None,
        },
        None => None,
    }
}

/// The toolhead position that a status object reports.
fn position_of(obj: &JsonValue) -> (r: Option<PositionUpdate>)
    ensures
        r == position_spec(*obj),
{
    match obj.get("toolhead") {
        Some(toolhead) => match toolhead.get("position") {
            Some(pos_val) => match pos_val.as_array() {
                Some(pos) => if pos.len() >= 4 {
                    Some(
                        PositionUpdate {
                            x: pos[0].as_number(),
                            y: pos[1].as_number(),
                            z: pos[2].as_number(),
                            e: pos[3].as_number(),
                        },
                    )
                } else {
                    None
                },
                None => None,
            },
            None => None,
        },
        None => None,
    }
}

/// The print status that a status object reports.
fn print_status_of(obj: &JsonValue) -> (r: Option<PrintStatus>)
    ensures
        r == print_status_field(*obj),
{
    match obj.get("print_stats") {
        Some(stats) => match stats.get("state") {
            Some(state) => match state.as_str() {
                Some(s) => Some(PrintStatus::from_state_text(s)),
                None => None,
            },
            None => None,
        },
        None => None,
    }
}

/// The state change that a notification from Klippy makes: only a
/// `notify_status_update` whose first parameter reports the extruder
/// temperatures, the toolhead position, the print state or the progress
/// changes anything.
pub fn update_state_from_notification(method: &str, params: &JsonValue) -> (r: Option<StatusPatch>)
    ensures
        r == notification_patch(method@, *params),
        r matches Some(p) ==> p.changes_state(),
{
    if !str_equals(method, "notify_status_update") {
        return None;
    }
    let obj = match params.as_array() {
        Some(arr) => if arr.len() > 0 {
            &arr[0]
        } else {
            return None;
        },
        None => {
            return None;
        },
    };
    let patch = StatusPatch {
        tool_temp: nested_number_of(obj, "extruder", "temperature"),
        target_temp: nested_number_of(obj, "extruder", "target"),
        position: position_of(obj),
        print_status: print_status_of(obj),
        print_progress: nested_number_of(obj, "print_stats", "progress"),
    };
    assert(patch == patch_for(*obj));
    if patch.tool_temp.is_some() || patch.target_temp.is_some() || patch.position.is_some()
        || patch.print_status.is_some() || patch.print_progress.is_some() {
        Some(patch)
    } else {
        None
    }
}

/// A command for the printer from the rest of the server.
#[derive(Debug)]
pub enum KlippyCommand {
    /// Stop everything at once.
    EmergencyStop,
    /// Set the hotend target; the temperature comes as the decimal text
    /// that is put after `M104 S` in the G-code.
    SetTargetTemperature(String),
    /// Any JSON-RPC call; its reply is handed back to the caller.
    JsonRpcRequest { method: String, params: JsonValue },
}

/// What happened on the connection or the command channel.
#[derive(Debug)]
pub enum SessionEvent {
    Command(KlippyCommand),
    /// The command channel has no senders left.
    CommandChannelClosed,
    /// A frame arrived from Klippy.
    Frame(JsonValue),
    /// Reading from the socket failed.
    StreamFailed,
    /// Klippy closed the socket.
    StreamEnded,
}

/// Why a connection ends.
#[derive(Debug, Clone, Copy, PartialEq, Eq, Structural)]
pub enum SessionEnd {
    /// No more commands can come: the connection ends without error, and
    /// the actor, as after any end, connects again after its delay.
    CommandsClosed,
    /// Reading from the socket failed.
    StreamFailed,
    /// Klippy closed the socket.
    ConnectionLost,
}

/// What the connection does in answer to an event.
#[derive(Debug)]
pub enum SessionAction {
    /// Write `payload` to Klippy. `reply_id` is the id under which the
    /// reply will be handed back, for requests whose caller waits for one.
    Send { payload: JsonValue, reply_id: Option<u64> },
    /// Hand the reply to request `id` to its caller: the `result` member,
    /// or `Err` with the `error` member where Klippy reported one.
    Reply { id: u64, result: Result<JsonValue, JsonValue> },
    /// Apply a status change to the published printer state.
    UpdateStatus(StatusPatch),
    /// Nothing to do.
    Ignore,
    /// The connection is over.
    Finish(SessionEnd),
}

/// The members `jsonrpc`, `method` first and `id` last of a JSON-RPC call.
pub open spec fn rpc_members(m: Seq<(String, JsonValue)>, method: Seq<char>, id: u64) -> bool {
    &&& m.len() >= 3
    &&& key_at(m, 0, "jsonrpc"@) && is_json_str(m[0].1, "2.0"@)
    &&& key_at(m, 1, "method"@) && is_json_str(m[1].1, method)
    &&& key_at(m, m.len() - 1, "id"@)
    &&& m[m.len() - 1].1 == JsonValue::Number(JsonNumber::PosInt(id))
}

/// `v` is the call `{"jsonrpc": "2.0", "method": method, "id": id}`.
pub open spec fn is_rpc_call(v: JsonValue, method: Seq<char>, id: u64) -> bool {
    v matches JsonValue::Object(m) && m@.len() == 3 && rpc_members(m@, method, id)
}

/// `v` is the call `{"jsonrpc": "2.0", "method": method, "params": params,
/// "id": id}`.
pub open spec fn is_rpc_call_with(v: JsonValue, method: Seq<char>, params: JsonValue, id: u64) -> bool {
    &&& v matches JsonValue::Object(m)
    &&& m@.len() == 4
    &&& rpc_members(m@, method, id)
    &&& key_at(m@, 2, "params"@)
    &&& m@[2].1 == params
}

/// `v` is `{"script": script}`.
pub open spec fn is_script_params(v: JsonValue, script: Seq<char>) -> bool {
    v matches JsonValue::Object(m) && m@.len() == 1 && key_at(m@, 0, "script"@) && is_json_str(
        m@[0].1,
        script,
    )
}

/// `v` runs the G-code `script`.
pub open spec fn is_gcode_call(v: JsonValue, script: Seq<char>, id: u64) -> bool {
    &&& v matches JsonValue::Object(m)
    &&& m@.len() == 4
    &&& rpc_members(m@, "printer.gcode.script"@, id)
    &&& key_at(m@, 2, "params"@)
    &&& is_script_params(m@[2].1, script)
}

/// The reply that a response frame carries for request `id`.
pub open spec fn reply_for(frame: JsonValue, id: u64) -> SessionAction {
    match frame.spec_get("error"@) {
        Some(e) => SessionAction::Reply { id, result: Err(e) },
        None => SessionAction::Reply {
            id,
            result: Ok(
                match frame.spec_get("result"@) {
                    Some(v) => v,
                    None => JsonValue::Null,
                },
            ),
        },
    }
}

/// The action for a frame without an id: a notification changes the
/// printer state where it reports something.
pub open spec fn notification_action(frame: JsonValue) -> SessionAction {
    match frame.spec_get("method"@) {
        Some(JsonValue::String(m)) => {
            let params = match frame.spec_get("params"@) {
                Some(p) => p,
                None => JsonValue::Null,
            };
            match notification_patch(m@, params) {
                Some(p) => SessionAction::UpdateStatus(p),
                None => SessionAction::Ignore,
            }
        },
        _ => SessionAction::Ignore,
    }
}

/// The request id that the handshake uses.
pub const IDENTIFY_ID: u64 = 1u64;

/// The state of one connection to Klippy: the id of the next request and
/// the ids of the requests whose reply is awaited.
pub struct KlippySession {
    next_id: u64,
    pending: HashSet<u64>,
}

impl KlippySession {
    #[verifier::type_invariant]
    spec fn ids_consistent(self) -> bool {
        &&& self.next_id > IDENTIFY_ID
        &&& forall|x: u64| #[trigger] self.pending@.contains(x) ==> IDENTIFY_ID < x < self.next_id
    }

    /// The id that the next request gets.
    pub closed spec fn next_request_id(&self) -> u64 {
        self.next_id
    }

    /// The ids of the requests whose reply is awaited.
    pub closed spec fn awaiting(&self) -> Set<u64> {
        self.pending@
    }

    /// Opens a session on a fresh connection. The handshake
    /// `emulator_identify` goes out first with id 1; requests are numbered
    /// from 2.
    pub fn start() -> (r: (Self, JsonValue))
        ensures
            r.0.next_request_id() == IDENTIFY_ID + 1,
            r.0.awaiting() == Set::<u64>::empty(),
            ids_below(r.0.next_request_id(), r.0.awaiting()),
            is_rpc_call(r.1, "emulator_identify"@, IDENTIFY_ID),
    {
        let session = KlippySession { next_id: 2, pending: HashSet::new() };
        let payload = rpc_call("emulator_identify", None, IDENTIFY_ID);
        (session, payload)
    }

    /// Whether another request can be numbered.
    pub fn can_number_request(&self) -> (r: bool)
        ensures
            r == (self.next_request_id() < u64::MAX),
    {
        self.next_id < u64::MAX
    }

    /// Carries out one event of the connection.
    pub fn handle(&mut self, event: SessionEvent) -> (r: SessionAction)
        requires
            event is Command ==> old(self).next_request_id() < u64::MAX,
        ensures
            session_step(
                old(self).next_request_id(),
                old(self).awaiting(),
                event,
                r,
                final(self).next_request_id(),
                final(self).awaiting(),
            ),
            ids_below(final(self).next_request_id(), final(self).awaiting()),
    {
        let r = match event {
            SessionEvent::Command(cmd) => self.on_command(cmd),
            SessionEvent::CommandChannelClosed => SessionAction::Finish(SessionEnd::CommandsClosed),
            SessionEvent::Frame(frame) => self.on_frame(frame),
            SessionEvent::StreamFailed => SessionAction::Finish(SessionEnd::StreamFailed),
            SessionEvent::StreamEnded => SessionAction::Finish(SessionEnd::ConnectionLost),
        };
        proof {
            use_type_invariant(&*self);
        }
        r
    }

    /// Numbers a command and builds the call that carries it. A JSON-RPC
    /// request is awaited under its id from now on.
    fn on_command(&mut self, cmd: KlippyCommand) -> (r: SessionAction)
        requires
            old(self).next_request_id() < u64::MAX,
        ensures
            command_step(
                old(self).next_request_id(),
                old(self).awaiting(),
                cmd,
                r,
                final(self).next_request_id(),
                final(self).awaiting(),
            ),
    {
        proof {
            use_type_invariant(&*self);
        }
        let id: u64 = self.next_id;
        match cmd {
            KlippyCommand::EmergencyStop => {
                let payload = rpc_call("printer.emergency_stop", None, id);
                self.next_id = id + 1;
                SessionAction::Send { payload, reply_id: None }
            },
            KlippyCommand::SetTargetTemperature(temp) => {
                let mut script = "M104 S".to_owned();
                script.append(temp.as_str());
                let mut params: Vec<(String, JsonValue)> = Vec::new();
                params.push(("script".to_owned(), JsonValue::String(script)));
                let payload = rpc_call("printer.gcode.script", Some(JsonValue::Object(params)), id);
                self.next_id = id + 1;
                SessionAction::Send { payload, reply_id: None }
            },
            KlippyCommand::JsonRpcRequest { method, params } => {
                let payload = rpc_call(method.as_str(), Some(params), id);
                let mut awaited: HashSet<u64> = HashSet::new();
                std::mem::swap(&mut awaited, &mut self.pending);
                awaited.insert(id);
                self.next_id = id + 1;
                self.pending = awaited;
                SessionAction::Send { payload, reply_id: Some(id) }
            },
        }
    }

    /// Carries a frame from Klippy: a reply to an awaited request is handed
    /// back once; a frame without an id may change the printer state.
    fn on_frame(&mut self, frame: JsonValue) -> (r: SessionAction)
        ensures
            final(self).next_request_id() == old(self).next_request_id(),
            frame_outcome(old(self).awaiting(), frame, r, final(self).awaiting()),
    {
        proof {
            use_type_invariant(&*self);
        }
        let id_present = frame.get("id").is_some();
        if id_present {
            let id_num = match frame.get("id") {
                Some(v) => v.as_u64(),
                None => None,
            };
            match id_num {
                Some(id) => {
                    let mut remaining: HashSet<u64> = HashSet::new();
                    std::mem::swap(&mut remaining, &mut self.pending);
                    let ghost before = remaining@;
                    let was_awaited = remaining.remove(&id);
                    assert(remaining@ == before.remove(id));
                    assert(!before.contains(id) ==> before.remove(id) =~= before);
                    self.pending = remaining;
                    if !was_awaited {
                        SessionAction::Ignore
                    } else {
                        let has_error = frame.get("error").is_some();
                        if has_error {
                            match frame.take("error") {
                                Some(e) => SessionAction::Reply { id, result: Err(e) },
                                None => SessionAction::Ignore,
                            }
                        } else {
                            let result = match frame.take("result") {
                                Some(v) => v,
                                None => JsonValue::Null,
                            };
                            SessionAction::Reply { id, result: Ok(result) }
                        }
                    }
                },
                None => SessionAction::Ignore,
            }
        } else {
            let null = JsonValue::Null;
            let method = match frame.get("method") {
                Some(m) => m.as_str(),
                None => None,
            };
            match method {
                Some(m) => {
                    let params = match frame.get("params") {
                        Some(p) => p,
                        None => &null,
                    };
                    match update_state_from_notification(m, params) {
                        Some(p) => SessionAction::UpdateStatus(p),
                        None => SessionAction::Ignore,
                    }
                },
                None => SessionAction::Ignore,
            }
        }
    }
}

/// What a frame does to the awaited ids and which action it asks for: a
/// frame with an id is a reply, carried only where that id is awaited and
/// then no longer awaited; any other frame is a notification.
pub open spec fn frame_outcome(
    awaiting: Set<u64>,
    frame: JsonValue,
    action: SessionAction,
    awaiting_after: Set<u64>,
) -> bool {
    match frame.spec_get("id"@) {
        Some(id_val) => match id_val.spec_as_u64() {
            Some(id) => if awaiting.contains(id) {
                action == reply_for(frame, id) && awaiting_after == awaiting.remove(id)
            } else {
                action == SessionAction::Ignore && awaiting_after == awaiting
            },
            None => action == SessionAction::Ignore && awaiting_after == awaiting,
        },
        None => action == notification_action(frame) && awaiting_after == awaiting,
    }
}

/// Every awaited id is below the next id, so a new request never reuses
/// the id of one still awaited.
pub open spec fn ids_below(next_id: u64, awaiting: Set<u64>) -> bool {
    forall|x: u64| awaiting.contains(x) ==> x < next_id
}

/// What a command does: it goes out as a call numbered with the next id,
/// and the next id moves on by one. Only a JSON-RPC request is awaited.
pub open spec fn command_step(
    next_id: u64,
    awaiting: Set<u64>,
    cmd: KlippyCommand,
    action: SessionAction,
    next_id_after: u64,
    awaiting_after: Set<u64>,
) -> bool {
    &&& next_id_after == next_id + 1
    &&& match cmd {
        KlippyCommand::EmergencyStop => {
            &&& awaiting_after == awaiting
            &&& action matches SessionAction::Send { payload, reply_id }
            &&& reply_id is None
            &&& is_rpc_call(payload, "printer.emergency_stop"@, next_id)
        },
        KlippyCommand::SetTargetTemperature(temp) => {
            &&& awaiting_after == awaiting
            &&& action matches SessionAction::Send { payload, reply_id }
            &&& reply_id is None
            &&& is_gcode_call(payload, "M104 S"@ + temp@, next_id)
        },
        KlippyCommand::JsonRpcRequest { method, params } => {
            &&& awaiting_after == awaiting.insert(next_id)
            &&& action matches SessionAction::Send { payload, reply_id }
            &&& reply_id == Some(next_id)
            &&& is_rpc_call_with(payload, method@, params, next_id)
        },
    }
}

/// What one event does to the connection state and which action it asks
/// for.
pub open spec fn session_step(
    next_id: u64,
    awaiting: Set<u64>,
    event: SessionEvent,
    action: SessionAction,
    next_id_after: u64,
    awaiting_after: Set<u64>,
) -> bool {
    match event {
        SessionEvent::Command(cmd) => command_step(
            next_id,
            awaiting,
            cmd,
            action,
            next_id_after,
            awaiting_after,
        ),
        SessionEvent::Frame(frame) => next_id_after == next_id && frame_outcome(
            awaiting,
            frame,
            action,
            awaiting_after,
        ),
        SessionEvent::CommandChannelClosed => next_id_after == next_id && awaiting_after
            == awaiting && action == SessionAction::Finish(SessionEnd::CommandsClosed),
        SessionEvent::StreamFailed => next_id_after == next_id && awaiting_after == awaiting
            && action == SessionAction::Finish(SessionEnd::StreamFailed),
        SessionEvent::StreamEnded => next_id_after == next_id && awaiting_after == awaiting
            && action == SessionAction::Finish(SessionEnd::ConnectionLost),
    }
}

/// The number of commands among `events`.
pub open spec fn count_commands(events: Seq<SessionEvent>) -> nat
    decreases events.len(),
{
    if events.len() == 0 {
        0
    } else {
        count_commands(events.drop_last()) + if events.last() is Command {
            1nat
        } else {
            0nat
        }
    }
}

/// The `id` member that ends a call the connection sends.
pub open spec fn sent_id(action: SessionAction) -> Option<u64> {
    match action {
        SessionAction::Send { payload, .. } => match payload {
            JsonValue::Object(m) => if m@.len() > 0 {
                match m@.last().1 {
                    JsonValue::Number(JsonNumber::PosInt(id)) => Some(id),
                    _ => None,
                }
            } else {
                None
            },
            _ => None,
        },
        _ => None,
    }
}

/// The id that a frame from Klippy carries, where it carries one.
pub open spec fn frame_id(frame: JsonValue) -> Option<u64> {
    match frame.spec_get("id"@) {
        Some(v) => v.spec_as_u64(),
        None => None,
    }
}

/// One connection from its start: `events[i]` took the state from
/// `(nexts[i], awaits[i])` to `(nexts[i + 1], awaits[i + 1])` and asked
/// for `actions[i]`.
pub open spec fn is_session_run(
    events: Seq<SessionEvent>,
    actions: Seq<SessionAction>,
    nexts: Seq<u64>,
    awaits: Seq<Set<u64>>,
) -> bool {
    &&& actions.len() == events.len()
    &&& nexts.len() == events.len() + 1
    &&& awaits.len() == events.len() + 1
    &&& nexts[0] == IDENTIFY_ID + 1
    &&& awaits[0] == Set::<u64>::empty()
    &&& forall|i: int|
        0 <= i < events.len() ==> session_step(
            nexts[i],
            awaits[i],
            #[trigger] events[i],
            actions[i],
            nexts[i + 1],
            awaits[i + 1],
        )
}

/// One event moves the next id on by one exactly when it is a command, and
/// the call a command sends carries the id it found.
proof fn lemma_step_numbering(
    next_id: u64,
    awaiting: Set<u64>,
    event: SessionEvent,
    action: SessionAction,
    next_id_after: u64,
    awaiting_after: Set<u64>,
)
    requires
        session_step(next_id, awaiting, event, action, next_id_after, awaiting_after),
    ensures
        next_id_after == next_id + if event is Command {
            1int
        } else {
            0int
        },
        event is Command ==> sent_id(action) == Some(next_id),
{
    match event {
        SessionEvent::Command(cmd) => match cmd {
            KlippyCommand::EmergencyStop => {},
            KlippyCommand::SetTargetTemperature(t) => {},
            KlippyCommand::JsonRpcRequest { method, params } => {},
        },
        _ => {},
    }
}

/// After the first `i` events the next id is 2 plus the number of commands
/// among them.
proof fn lemma_next_counts_commands(
    events: Seq<SessionEvent>,
    actions: Seq<SessionAction>,
    nexts: Seq<u64>,
    awaits: Seq<Set<u64>>,
    i: int,
)
    requires
        is_session_run(events, actions, nexts, awaits),
        0 <= i <= events.len(),
    ensures
        nexts[i] == IDENTIFY_ID + 1 + count_commands(events.take(i)),
    decreases i,
{
    if i == 0 {
        assert(events.take(0) =~= Seq::<SessionEvent>::empty());
    } else {
        lemma_next_counts_commands(events, actions, nexts, awaits, i - 1);
        assert(session_step(nexts[i - 1], awaits[i - 1], events[i - 1], actions[i - 1], nexts[i], awaits[i]));
        lemma_step_numbering(nexts[i - 1], awaits[i - 1], events[i - 1], actions[i - 1], nexts[i], awaits[i]);
        assert(events.take(i).drop_last() =~= events.take(i - 1));
        assert(events.take(i).last() == events[i - 1]);
    }
}

/// Requests on one connection are numbered 2, 3, 4, ... in the order the
/// commands arrive: the call sent for the command that follows `c` others
/// carries id `c + 2`, so no two calls share an id and none takes the
/// handshake's id 1.
pub proof fn law_commands_numbered_in_order(
    events: Seq<SessionEvent>,
    actions: Seq<SessionAction>,
    nexts: Seq<u64>,
    awaits: Seq<Set<u64>>,
)
    requires
        is_session_run(events, actions, nexts, awaits),
    ensures
        forall|i: int|
            0 <= i <= events.len() ==> #[trigger] nexts[i] == IDENTIFY_ID + 1 + count_commands(
                events.take(i),
            ),
        forall|i: int|
            0 <= i < events.len() && (#[trigger] events[i]) is Command ==> sent_id(actions[i])
                == Some(nexts[i]),
        forall|i: int, j: int|
            0 <= i < j < events.len() && (#[trigger] events[i]) is Command && (
            #[trigger] events[j]) is Command ==> IDENTIFY_ID < nexts[i] < nexts[j],
{
    assert forall|i: int| 0 <= i <= events.len() implies #[trigger] nexts[i] == IDENTIFY_ID + 1
        + count_commands(events.take(i)) by {
        lemma_next_counts_commands(events, actions, nexts, awaits, i);
    }
    assert forall|i: int| 0 <= i < events.len() && (#[trigger] events[i]) is Command implies sent_id(
        actions[i],
    ) == Some(nexts[i]) by {
        assert(session_step(nexts[i], awaits[i], events[i], actions[i], nexts[i + 1], awaits[i + 1]));
        lemma_step_numbering(nexts[i], awaits[i], events[i], actions[i], nexts[i + 1], awaits[i + 1]);
    }
    assert forall|i: int, j: int|
        0 <= i < j < events.len() && (#[trigger] events[i]) is Command && (
        #[trigger] events[j]) is Command implies IDENTIFY_ID < nexts[i] < nexts[j] by {
        lemma_next_counts_commands(events, actions, nexts, awaits, i);
        lemma_nexts_grow(events, actions, nexts, awaits, i, j);
    }
}

/// The next id never falls along a connection, and a command moves it on.
proof fn lemma_nexts_grow(
    events: Seq<SessionEvent>,
    actions: Seq<SessionAction>,
    nexts: Seq<u64>,
    awaits: Seq<Set<u64>>,
    i: int,
    j: int,
)
    requires
        is_session_run(events, actions, nexts, awaits),
        0 <= i < j <= events.len(),
        events[i] is Command,
    ensures
        nexts[i] < nexts[j],
    decreases j - i,
{
    assert(session_step(nexts[j - 1], awaits[j - 1], events[j - 1], actions[j - 1], nexts[j], awaits[j]));
    lemma_step_numbering(nexts[j - 1], awaits[j - 1], events[j - 1], actions[j - 1], nexts[j], awaits[j]);
    if j - 1 > i {
        lemma_nexts_grow(events, actions, nexts, awaits, i, j - 1);
    }
}

/// A JSON-RPC request stays awaited until a frame with its id arrives:
/// between the request and such a frame, no command, notification, stray
/// reply or end of the stream drops it.
pub proof fn law_request_awaited_until_reply(
    events: Seq<SessionEvent>,
    actions: Seq<SessionAction>,
    nexts: Seq<u64>,
    awaits: Seq<Set<u64>>,
    i: int,
    j: int,
)
    requires
        is_session_run(events, actions, nexts, awaits),
        0 <= i < j <= events.len(),
        events[i] matches SessionEvent::Command(KlippyCommand::JsonRpcRequest { .. }),
        forall|k: int|
            i < k < j ==> !(#[trigger] events[k] matches SessionEvent::Frame(f) && frame_id(f)
                == Some(nexts[i])),
    ensures
        awaits[j].contains(nexts[i]),
    decreases j - i,
{
    let x = nexts[i];
    assert(session_step(nexts[j - 1], awaits[j - 1], events[j - 1], actions[j - 1], nexts[j], awaits[j]));
    if j - 1 == i {
        match events[i] {
            SessionEvent::Command(cmd) => match cmd {
                KlippyCommand::JsonRpcRequest { method, params } => {},
                _ => {},
            },
            _ => {},
        }
    } else {
        law_request_awaited_until_reply(events, actions, nexts, awaits, i, j - 1);
        assert(!(events[j - 1] matches SessionEvent::Frame(f) && frame_id(f) == Some(x)));
        match events[j - 1] {
            SessionEvent::Command(cmd) => match cmd {
                KlippyCommand::EmergencyStop => {},
                KlippyCommand::SetTargetTemperature(t) => {},
                KlippyCommand::JsonRpcRequest { method, params } => {},
            },
            SessionEvent::Frame(f) => {
                match f.spec_get("id"@) {
                    Some(v) => match v.spec_as_u64() {
                        Some(id) => {
                            assert(id != x);
                        },
                        None => {},
                    },
                    None => {},
                }
            },
            _ => {},
        }
    }
}

/// A request is answered by its reply: after a JSON-RPC request goes out,
/// a frame carrying its id hands that frame's result (or error) back under
/// the request's id, and the request is then no longer awaited.
pub proof fn law_reply_answers_request(
    next_id: u64,
    awaiting: Set<u64>,
    method: String,
    params: JsonValue,
    sent: SessionAction,
    next_id_mid: u64,
    awaiting_mid: Set<u64>,
    frame: JsonValue,
    answer: SessionAction,
    awaiting_after: Set<u64>,
)
    requires
        ids_below(next_id, awaiting),
        command_step(
            next_id,
            awaiting,
            KlippyCommand::JsonRpcRequest { method, params },
            sent,
            next_id_mid,
            awaiting_mid,
        ),
        frame_outcome(awaiting_mid, frame, answer, awaiting_after),
        frame.spec_get("id"@) matches Some(id_val) && id_val.spec_as_u64() == Some(next_id),
    ensures
        sent matches SessionAction::Send { reply_id, .. } && reply_id == Some(next_id),
        answer == reply_for(frame, next_id),
        awaiting_after == awaiting,
{
    assert(!awaiting.contains(next_id));
    assert(awaiting_mid.contains(next_id));
    assert(awaiting.insert(next_id).remove(next_id) =~= awaiting);
}

/// A reply is handed back once: after a frame has been carried as the
/// reply to some id, a later frame with the same id is ignored.
pub proof fn law_reply_handed_back_once(
    awaiting: Set<u64>,
    first: JsonValue,
    first_action: SessionAction,
    awaiting_mid: Set<u64>,
    second: JsonValue,
    second_action: SessionAction,
    awaiting_after: Set<u64>,
    id: u64,
)
    requires
        frame_outcome(awaiting, first, first_action, awaiting_mid),
        first_action matches SessionAction::Reply { id: replied, .. } && replied == id,
        frame_outcome(awaiting_mid, second, second_action, awaiting_after),
        second.spec_get("id"@) matches Some(id_val) && id_val.spec_as_u64() == Some(id),
    ensures
        second_action == SessionAction::Ignore,
        awaiting_after == awaiting_mid,
        !awaiting_mid.contains(id),
{
    if let Some(id_val) = first.spec_get("id"@) {
        if let Some(first_id) = id_val.spec_as_u64() {
            if awaiting.contains(first_id) {
                match first.spec_get("error"@) {
                    Some(e) => {},
                    None => {},
                }
                assert(first_id == id);
            }
        }
    }
}

/// Replies never change the printer state and notifications never touch
/// the awaited requests: a frame either is carried as a reply, or changes
/// the state, or is ignored, and only a reply frees an awaited id.
pub proof fn law_frames_reply_or_notify(
    awaiting: Set<u64>,
    frame: JsonValue,
    action: SessionAction,
    awaiting_after: Set<u64>,
)
    requires
        frame_outcome(awaiting, frame, action, awaiting_after),
    ensures
        frame.spec_get("id"@) is Some ==> !(action is UpdateStatus),
        frame.spec_get("id"@) is None ==> awaiting_after == awaiting && !(action is Reply),
        action is Reply || awaiting_after == awaiting,
        awaiting_after.subset_of(awaiting),
{
    match frame.spec_get("id"@) {
        Some(id_val) => match id_val.spec_as_u64() {
            Some(id) => if awaiting.contains(id) {
                match frame.spec_get("error"@) {
                    Some(e) => {},
                    None => {},
                }
            },
            None => {},
        },
        None => {
            match frame.spec_get("method"@) {
                Some(JsonValue::String(m)) => {},
                _ => {},
            }
        },
    }
}

/// Builds `{"jsonrpc": "2.0", "method": method, ["params": params,] "id": id}`.
fn rpc_call(method: &str, params: Option<JsonValue>, id: u64) -> (r: JsonValue)
    ensures
        params is None ==> is_rpc_call(r, method@, id),
        params matches Some(p) ==> is_rpc_call_with(r, method@, p, id),
{
    let mut members: Vec<(String, JsonValue)> = Vec::new();
    members.push(("jsonrpc".to_owned(), json_str("2.0")));
    members.push(("method".to_owned(), json_str(method)));
    match params {
        Some(p) => members.push(("params".to_owned(), p)),
        None => {},
    }
    members.push(("id".to_owned(), JsonValue::Number(JsonNumber::PosInt(id))));
    JsonValue::Object(members)
}

/// The `i`-th coordinate of a position update: `x`, `y`, `z`, `e` for 0 to 3.
pub open spec fn coordinate(u: PositionUpdate, i: int) -> Option<JsonNumber> {
    if i == 0 {
        u.x
    } else if i == 1 {
        u.y
    } else if i == 2 {
        u.z
    } else {
        u.e
    }
}

/// The keys of a call's members never collide: looking a member up by name
/// finds the member written under that name.
proof fn lemma_call_member_lookup(m: Seq<(String, JsonValue)>, method: Seq<char>, id: u64)
    requires
        rpc_members(m, method, id),
        m.len() == 3 || (m.len() == 4 && key_at(m, 2, "params"@)),
    ensures
        crate::json::member_lookup(m, "jsonrpc"@) == Some(m[0].1),
        crate::json::member_lookup(m, "method"@) == Some(m[1].1),
        crate::json::member_lookup(m, "id"@) == Some(m[m.len() - 1].1),
        m.len() == 4 ==> crate::json::member_lookup(m, "params"@) == Some(m[2].1),
        m.len() == 3 ==> crate::json::member_lookup(m, "params"@) is None,
{
    reveal_strlit("jsonrpc");
    reveal_strlit("method");
    reveal_strlit("params");
    reveal_strlit("id");
    assert("jsonrpc"@.len() != "method"@.len());
    assert("jsonrpc"@.len() != "params"@.len());
    assert("jsonrpc"@.len() != "id"@.len());
    assert("method"@[0] != "params"@[0]);
    assert("method"@ != "params"@);
    assert("method"@.len() != "id"@.len());
    assert("params"@.len() != "id"@.len());
    lemma_member_lookup_found(m, "jsonrpc"@, 0);
    lemma_member_lookup_found(m, "method"@, 1);
    lemma_member_lookup_found(m, "id"@, m.len() - 1);
    if m.len() == 4 {
        lemma_member_lookup_found(m, "params"@, 2);
    } else {
        lemma_member_lookup_absent(m, "params"@);
    }
}

/// Every command goes out as one JSON-RPC 2.0 call whose `id` member is the
/// next id. An emergency stop calls `printer.emergency_stop` with no
/// parameters; a temperature command runs the G-code `M104 S<temp>`
/// through `printer.gcode.script`; a JSON-RPC request calls its method with
/// its own parameters, unchanged, and is the only one whose reply is
/// awaited.
pub proof fn law_command_sends_its_call(
    next_id: u64,
    awaiting: Set<u64>,
    cmd: KlippyCommand,
    action: SessionAction,
    next_id_after: u64,
    awaiting_after: Set<u64>,
)
    requires
        command_step(next_id, awaiting, cmd, action, next_id_after, awaiting_after),
    ensures
        action matches SessionAction::Send { payload, reply_id } && {
            &&& payload.spec_get("jsonrpc"@) matches Some(JsonValue::String(v)) && v@ == "2.0"@
            &&& payload.spec_get("id"@) == Some(JsonValue::Number(JsonNumber::PosInt(next_id)))
            &&& match cmd {
                KlippyCommand::EmergencyStop => {
                    &&& payload.spec_get("method"@) matches Some(JsonValue::String(m))
                        && m@ == "printer.emergency_stop"@
                    &&& payload.spec_get("params"@) is None
                    &&& reply_id is None
                },
                KlippyCommand::SetTargetTemperature(temp) => {
                    &&& payload.spec_get("method"@) matches Some(JsonValue::String(m))
                        && m@ == "printer.gcode.script"@
                    &&& payload.spec_get("params"@) matches Some(p) && p.spec_get("script"@)
                        matches Some(JsonValue::String(sc)) && sc@ == "M104 S"@ + temp@
                    &&& reply_id is None
                },
                KlippyCommand::JsonRpcRequest { method, params } => {
                    &&& payload.spec_get("method"@) matches Some(JsonValue::String(m)) && m@
                        == method@
                    &&& payload.spec_get("params"@) == Some(params)
                    &&& reply_id == Some(next_id)
                },
            }
        },
{
    match action {
        SessionAction::Send { payload, reply_id } => match payload {
            JsonValue::Object(m) => {
                lemma_call_member_lookup(m@, m@[1].1->String_0@, next_id);
                match cmd {
                    KlippyCommand::SetTargetTemperature(temp) => {
                        match m@[2].1 {
                            JsonValue::Object(pm) => {
                                lemma_member_lookup_found(pm@, "script"@, 0);
                            },
                            _ => {},
                        }
                    },
                    _ => {},
                }
            },
            _ => {},
        },
        _ => {},
    }
}

/// A `notify_status_update` whose status object reports the toolhead
/// position as an array of at least four elements updates the position,
/// and its `i`-th coordinate is element `i` of that array: `x`, `y`, `z`
/// and `e` in that order.
pub proof fn law_position_takes_array_elements_in_order(
    params: JsonValue,
    obj: JsonValue,
    pos: Seq<JsonValue>,
)
    requires
        params matches JsonValue::Array(items) && items@.len() > 0 && items@[0] == obj,
        obj.spec_get("toolhead"@) matches Some(t) && t.spec_get("position"@) matches Some(
            JsonValue::Array(p),
        ) && p@ == pos,
        pos.len() >= 4,
    ensures
        notification_patch("notify_status_update"@, params) matches Some(patch) && patch.position
            matches Some(u) && forall|i: int| 0 <= i < 4 ==> #[trigger] coordinate(u, i)
            == pos[i].spec_as_number(),
{
}

/// A lowercased state text stands for `Printing` exactly when it is
/// `printing`, for `Paused` exactly when it is `paused`, and for `Idle`
/// otherwise: any other state (`standby`, `complete`, `cancelled`, `error`)
/// is idle.
pub proof fn law_only_printing_and_paused_are_active(lower: Seq<char>)
    ensures
        status_of_lowered(lower) == PrintStatus::Printing <==> lower == "printing"@,
        status_of_lowered(lower) == PrintStatus::Paused <==> lower == "paused"@,
        status_of_lowered(lower) == PrintStatus::Idle <==> (lower != "printing"@ && lower
            != "paused"@),
{
    reveal_strlit("printing");
    reveal_strlit("paused");
    assert("printing"@.len() != "paused"@.len());
}

} // verus!
