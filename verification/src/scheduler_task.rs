use vstd::prelude::*;
use vstd::string::*;

use crate::aas_interfaces::{submodel_key, submodel_key_text};
use crate::reply::{concat, LogLine};
use crate::time::{
    format_rfc3339, is_plain_instant, parse_date_time_from_string, rfc3339_instant, rfc3339_text, seconds_between,
    whole_seconds_between, Instant,
};
use crate::merge::{lemma_merge_lookup, merge_entries};
use crate::value::{
    entries_wf, has_key, keys_unique, lemma_key_pos_unique, lookup, view_wf, Document, Entries,
    Value, ValueView,
};

verus! {

/// Seconds between two runs of the task that pushes device data.
pub const PUSH_INTERVAL_SECS: u32 = 5;

/// Seconds between two runs of the task that polls the server.
pub const POLL_INTERVAL_SECS: u32 = 10;

/// Seconds an offboarded device waits before it boards again.
pub const OFFBOARDED_GRACE_SECS: i128 = 120;

/// Where a planned patch goes: the local database or the AASX server.
#[derive(Debug, Clone, Copy, PartialEq, Eq)]
pub enum PatchTarget {
    Database,
    Server,
}

/// A patch the pushing task makes, with what it prints: `success` on standard
/// output when the patch succeeds, `failure` followed by the error on standard
/// error when it fails (which ends the run).
#[derive(Debug, PartialEq)]
pub struct PlannedPatch {
    pub target: PatchTarget,
    pub submodel: String,
    pub body: Result<Value, String>,
    pub success: Option<String>,
    pub failure: String,
}

/// The model of a `PlannedPatch`.
pub struct PatchView {
    pub target: PatchTarget,
    pub submodel: Seq<char>,
    pub body: Result<ValueView, Seq<char>>,
    pub success: Option<Seq<char>>,
    pub failure: Seq<char>,
}

/// The model of a request body: the body as BSON, or why it could not be
/// converted.
pub open spec fn body_view(b: Result<Value, String>) -> Result<ValueView, Seq<char>> {
    match b {
        Ok(v) => Ok(v@),
        Err(e) => Err(e@),
    }
}

pub open spec fn body_wf(b: Result<Value, String>) -> bool {
    b matches Ok(v) ==> view_wf(v@)
}

pub open spec fn opt_text(s: Option<String>) -> Option<Seq<char>> {
    match s {
        Some(t) => Some(t@),
        None => None,
    }
}

impl View for PlannedPatch {
    type V = PatchView;

    open spec fn view(&self) -> PatchView {
        PatchView {
            target: self.target,
            submodel: self.submodel@,
            body: body_view(self.body),
            success: opt_text(self.success),
            failure: self.failure@,
        }
    }
}

/// Where a run of the pushing task stands.
#[derive(Debug, PartialEq)]
pub enum PushState {
    /// Nothing done yet.
    Start,
    /// The system information script runs.
    RunningScript,
    /// The system information is being stored in the database.
    StoringSystemInformation { system_information: Result<Value, String> },
    /// The managed device's submodel is being read.
    ReadingDevice { system_information: Result<Value, String> },
    /// The planned patches are being made, the first one now.
    Patching { pending: Vec<PlannedPatch> },
    /// The run is over.
    Finished,
}

/// What happened since the last step.
#[derive(Debug, PartialEq)]
pub enum PushEvent {
    /// The scheduler started a run.
    Tick,
    /// The script could not be run; its error.
    ScriptFailed(String),
    /// The script's JSON output, converted to BSON.
    ScriptOutput(Result<Value, String>),
    /// A patch ended.
    PatchDone(Result<String, String>),
    /// The managed device's submodel was read at instant `now`.
    DeviceRead(Result<Document, String>, Instant),
}

/// What the pushing task does next.
#[derive(Debug, PartialEq)]
pub enum PushAction {
    /// Run the script at this path.
    RunScript(String),
    /// Patch the submodel in the database with the body.
    PatchDatabase { submodel: String, body: Result<Value, String> },
    /// Patch the submodel on the AASX server with the body.
    PatchServer { submodel: String, body: Result<Value, String> },
    /// Read the stored submodel with this id.
    ReadDevice { key: String },
    /// End the run.
    Stop,
}

/// One step of the pushing task: the new state, a line to print first, and
/// what to do.
#[derive(Debug, PartialEq)]
pub struct PushStep {
    pub state: PushState,
    pub log: Option<LogLine>,
    pub action: PushAction,
}

/// What the managed device's submodel asks for.
#[derive(Debug, Clone, Copy, PartialEq, Eq)]
pub enum BoardingPlan {
    /// It has no boarding status.
    MissingStatus,
    /// It has no time of its last update.
    MissingLastUpdate,
    /// Offboarding was requested: mark it offboarded, here and on the server.
    Offboard,
    /// It was offboarded less than the grace period ago: do nothing.
    Wait,
    /// It was offboarded long enough ago: board it again and push the system information.
    Onboard,
    /// It is onboarded: push the system information.
    PushOnly,
    /// Any other status: do nothing.
    Nothing,
}

/// The instant that chrono reads from an RFC 3339 text.
pub open spec fn read_instant(text: Seq<char>) -> Instant {
    let t = rfc3339_instant(text).unwrap();
    Instant { secs: t.0, nanos: t.1 }
}

/// What a device submodel asks for at instant `now`.
pub open spec fn boarding_plan(device: Entries, now: Instant) -> BoardingPlan {
    match lookup(device, "BoardingStatus"@) {
        None => BoardingPlan::MissingStatus,
        Some(ValueView::Str(status)) => match lookup(device, "LastUpdate"@) {
            None => BoardingPlan::MissingLastUpdate,
            Some(ValueView::Str(text)) => {
                if status == "OFFBOARDING_REQUESTED"@ {
                    BoardingPlan::Offboard
                } else if status == "OFFBOARDED"@ {
                    if whole_seconds_between(now, read_instant(text)) < 120 {
                        BoardingPlan::Wait
                    } else {
                        BoardingPlan::Onboard
                    }
                } else if status == "ONBOARDED"@ {
                    BoardingPlan::PushOnly
                } else {
                    BoardingPlan::Nothing
                }
            },
            _ => BoardingPlan::Nothing,
        },
        _ => BoardingPlan::Nothing,
    }
}

/// The device submodels that the task reads without stopping on a panic:
/// the boarding status and the last update, where present, are strings, and
/// the last update is an RFC 3339 time.
pub open spec fn device_readable(device: Entries) -> bool {
    match lookup(device, "BoardingStatus"@) {
        None => true,
        Some(ValueView::Str(_)) => match lookup(device, "LastUpdate"@) {
            None => true,
            Some(ValueView::Str(text)) => rfc3339_instant(text) is Some,
            _ => false,
        },
        _ => false,
    }
}

/// The managed device's new boarding status and the time it was set.
pub open spec fn boarding_body(status: Seq<char>, stamp: Seq<char>) -> ValueView {
    ValueView::Doc(
        seq![("BoardingStatus"@, ValueView::Str(status)), ("LastUpdate"@, ValueView::Str(stamp))],
    )
}

pub open spec fn patch_view(
    target: PatchTarget,
    submodel: Seq<char>,
    body: Result<ValueView, Seq<char>>,
    success: Option<Seq<char>>,
    failure: Seq<char>,
) -> PatchView {
    PatchView { target, submodel, body, success, failure }
}

/// The patches a plan makes, in order; `stamp` is the time of the run.
pub open spec fn planned_calls(
    plan: BoardingPlan,
    system_information: Result<ValueView, Seq<char>>,
    stamp: Seq<char>,
) -> Seq<PatchView> {
    let push = patch_view(
        PatchTarget::Server,
        "SystemInformation"@,
        system_information,
        Some("Successful pushing system information to server"@),
        "Failed to patch submodel server: "@,
    );
    match plan {
        BoardingPlan::Offboard => {
            let body = Ok(boarding_body("OFFBOARDED"@, stamp));
            seq![
                patch_view(PatchTarget::Database, "ManagedDevice"@, body, None, "Failed to offboard: "@),
                patch_view(
                    PatchTarget::Server,
                    "ManagedDevice"@,
                    body,
                    Some("Successful offboarding"@),
                    "Failed to offboard: "@,
                ),
            ]
        },
        BoardingPlan::Onboard => {
            let body = Ok(boarding_body("ONBOARDED"@, stamp));
            seq![
                patch_view(PatchTarget::Database, "ManagedDevice"@, body, None, "Failed to onboard: "@),
                patch_view(
                    PatchTarget::Server,
                    "ManagedDevice"@,
                    body,
                    Some("Successful onboarding"@),
                    "Failed to onboard: "@,
                ),
                push,
            ]
        },
        BoardingPlan::PushOnly => seq![push],
        _ => Seq::empty(),
    }
}

/// The action that makes patch `p`.
pub open spec fn performs(a: PushAction, p: PatchView) -> bool {
    match p.target {
        PatchTarget::Database => a matches PushAction::PatchDatabase { submodel, body } && submodel@
            == p.submodel && body_view(body) == p.body,
        PatchTarget::Server => a matches PushAction::PatchServer { submodel, body } && submodel@
            == p.submodel && body_view(body) == p.body,
    }
}

pub open spec fn pending_view(pending: Vec<PlannedPatch>) -> Seq<PatchView> {
    pending@.map_values(|p: PlannedPatch| p@)
}

/// A step that ends the run.
pub open spec fn finishes(r: PushStep) -> bool {
    r.state is Finished && r.action is Stop
}

/// A step that starts making `calls` (or ends the run when there are none).
pub open spec fn starts_calls(r: PushStep, calls: Seq<PatchView>) -> bool {
    if calls.len() == 0 {
        finishes(r)
    } else {
        &&& r.state matches PushState::Patching { pending } && pending_view(pending) == calls
        &&& performs(r.action, calls[0])
    }
}

pub open spec fn prints_err(l: Option<LogLine>, text: Seq<char>) -> bool {
    l matches Some(LogLine::Stderr(s)) && s@ == text
}

pub open spec fn prints_out(l: Option<LogLine>, text: Option<Seq<char>>) -> bool {
    match text {
        Some(t) => l matches Some(LogLine::Stdout(s)) && s@ == t,
        None => l is None,
    }
}

/// How many steps a run can still take from a state at most.
pub open spec fn push_measure(s: PushState) -> nat {
    match s {
        PushState::Start => 10,
        PushState::RunningScript => 9,
        PushState::StoringSystemInformation { .. } => 8,
        PushState::ReadingDevice { .. } => 7,
        PushState::Patching { pending } => pending@.len() + 1,
        PushState::Finished => 0,
    }
}

/// The model of a `PushState`.
pub enum StateView {
    Start,
    RunningScript,
    StoringSystemInformation(Result<ValueView, Seq<char>>),
    ReadingDevice(Result<ValueView, Seq<char>>),
    Patching(Seq<PatchView>),
    Finished,
}

/// The model of a `PushEvent`: what the step's next state and action depend on.
pub enum EventView {
    Tick,
    ScriptFailed,
    ScriptOutput(Result<ValueView, Seq<char>>),
    /// Whether the patch succeeded.
    PatchDone(bool),
    /// The device submodel, if it was read, and the instant of the read.
    DeviceRead(Option<Entries>, Instant),
}

/// The model of a `PushAction`.
pub enum ActionView {
    RunScript(Seq<char>),
    PatchDatabase(Seq<char>, Result<ValueView, Seq<char>>),
    PatchServer(Seq<char>, Result<ValueView, Seq<char>>),
    ReadDevice(Seq<char>),
    Stop,
}

pub open spec fn state_view(s: PushState) -> StateView {
    match s {
        PushState::Start => StateView::Start,
        PushState::RunningScript => StateView::RunningScript,
        PushState::StoringSystemInformation { system_information } => StateView::StoringSystemInformation(
            body_view(system_information),
        ),
        PushState::ReadingDevice { system_information } => StateView::ReadingDevice(
            body_view(system_information),
        ),
        PushState::Patching { pending } => StateView::Patching(pending_view(pending)),
        PushState::Finished => StateView::Finished,
    }
}

pub open spec fn event_view(e: PushEvent) -> EventView {
    match e {
        PushEvent::Tick => EventView::Tick,
        PushEvent::ScriptFailed(_) => EventView::ScriptFailed,
        PushEvent::ScriptOutput(b) => EventView::ScriptOutput(body_view(b)),
        PushEvent::PatchDone(r) => EventView::PatchDone(r is Ok),
        PushEvent::DeviceRead(d, now) => EventView::DeviceRead(
            match d {
                Ok(doc) => Some(doc@),
                Err(_) => None,
            },
            now,
        ),
    }
}

pub open spec fn action_view(a: PushAction) -> ActionView {
    match a {
        PushAction::RunScript(p) => ActionView::RunScript(p@),
        PushAction::PatchDatabase { submodel, body } => ActionView::PatchDatabase(submodel@, body_view(body)),
        PushAction::PatchServer { submodel, body } => ActionView::PatchServer(submodel@, body_view(body)),
        PushAction::ReadDevice { key } => ActionView::ReadDevice(key@),
        PushAction::Stop => ActionView::Stop,
    }
}

/// The action that makes patch `p`.
pub open spec fn patch_action(p: PatchView) -> ActionView {
    match p.target {
        PatchTarget::Database => ActionView::PatchDatabase(p.submodel, p.body),
        PatchTarget::Server => ActionView::PatchServer(p.submodel, p.body),
    }
}

/// The state and action that start making `calls`.
pub open spec fn calls_next(calls: Seq<PatchView>) -> (StateView, ActionView) {
    if calls.len() == 0 {
        (StateView::Finished, ActionView::Stop)
    } else {
        (StateView::Patching(calls), patch_action(calls[0]))
    }
}

/// The next state and action of the pushing task, over the models.
pub open spec fn push_next(aas_id_short: Seq<char>, s: StateView, e: EventView) -> (StateView, ActionView) {
    match s {
        StateView::Start => match e {
            EventView::Tick => (StateView::RunningScript, ActionView::RunScript("./scripts/aas_client/sysInfo.sh"@)),
            _ => (StateView::Finished, ActionView::Stop),
        },
        StateView::RunningScript => match e {
            EventView::ScriptOutput(b) => (
                StateView::StoringSystemInformation(b),
                ActionView::PatchDatabase("SystemInformation"@, b),
            ),
            _ => (StateView::Finished, ActionView::Stop),
        },
        StateView::StoringSystemInformation(si) => match e {
            EventView::PatchDone(true) => (
                StateView::ReadingDevice(si),
                ActionView::ReadDevice(submodel_key_text(aas_id_short, "ManagedDevice"@)),
            ),
            _ => (StateView::Finished, ActionView::Stop),
        },
        StateView::ReadingDevice(si) => match e {
            EventView::DeviceRead(Some(device), now) => match boarding_plan(device, now) {
                BoardingPlan::MissingStatus => (StateView::Finished, ActionView::Stop),
                BoardingPlan::MissingLastUpdate => (StateView::Finished, ActionView::Stop),
                plan => calls_next(planned_calls(plan, si, rfc3339_text(now.secs, now.nanos).unwrap())),
            },
            _ => (StateView::Finished, ActionView::Stop),
        },
        StateView::Patching(calls) => match e {
            EventView::PatchDone(true) => if calls.len() > 0 {
                calls_next(calls.drop_first())
            } else {
                (StateView::Finished, ActionView::Stop)
            },
            _ => (StateView::Finished, ActionView::Stop),
        },
        StateView::Finished => (StateView::Finished, ActionView::Stop),
    }
}

/// The values a state holds are well formed.
pub open spec fn state_wf(s: PushState) -> bool {
    match s {
        PushState::StoringSystemInformation { system_information } => body_wf(system_information),
        PushState::ReadingDevice { system_information } => body_wf(system_information),
        PushState::Patching { pending } => forall|i: int|
            0 <= i < pending@.len() ==> body_wf(#[trigger] pending@[i].body),
        _ => true,
    }
}

pub open spec fn event_wf(e: PushEvent) -> bool {
    match e {
        PushEvent::ScriptOutput(b) => body_wf(b),
        PushEvent::DeviceRead(d, now) => (d matches Ok(doc) ==> doc.wf()) && is_plain_instant(
            now.secs,
            now.nanos,
        ),
        _ => true,
    }
}

/// The inputs on which the task would stop on a panic: a device submodel that
/// it cannot read.
pub open spec fn push_panics(state: PushState, event: PushEvent) -> bool {
    &&& state is ReadingDevice
    &&& event matches PushEvent::DeviceRead(Ok(d), _) && !device_readable(d@)
}

fn clone_body(b: &Result<Value, String>) -> (r: Result<Value, String>)
    ensures
        body_view(r) == body_view(*b),
{
    match b {
        Ok(v) => Ok(v.clone()),
        Err(e) => Err(e.clone()),
    }
}

fn finished(log: Option<LogLine>) -> (r: PushStep)
    ensures
        finishes(r),
        r.log == log,
{
    PushStep { state: PushState::Finished, log, action: PushAction::Stop }
}

fn action_for(p: &PlannedPatch) -> (a: PushAction)
    ensures
        performs(a, p@),
{
    match p.target {
        PatchTarget::Database => PushAction::PatchDatabase {
            submodel: p.submodel.clone(),
            body: clone_body(&p.body),
        },
        PatchTarget::Server => PushAction::PatchServer {
            submodel: p.submodel.clone(),
            body: clone_body(&p.body),
        },
    }
}

fn start_calls(pending: Vec<PlannedPatch>, log: Option<LogLine>) -> (r: PushStep)
    ensures
        starts_calls(r, pending_view(pending)),
        r.log == log,
        match r.state {
            PushState::Patching { pending: p } => p@ == pending@,
            PushState::Finished => true,
            _ => false,
        },
{
    if pending.len() == 0 {
        proof {
            assert(pending_view(pending).len() == 0);
        }
        finished(log)
    } else {
        let action = action_for(&pending[0]);
        PushStep { state: PushState::Patching { pending }, log, action }
    }
}

fn planned(
    target: PatchTarget,
    submodel: &str,
    body: Result<Value, String>,
    success: Option<&str>,
    failure: &str,
) -> (p: PlannedPatch)
    ensures
        p@ == patch_view(
            target,
            submodel@,
            body_view(body),
            match success {
                Some(s) => Some(s@),
                None => None,
            },
            failure@,
        ),
{
    PlannedPatch {
        target,
        submodel: String::from_str(submodel),
        body,
        success: match success {
            Some(s) => Some(String::from_str(s)),
            None => None,
        },
        failure: String::from_str(failure),
    }
}

fn boarding_document(status: &str, stamp: &String) -> (v: Value)
    ensures
        v@ == boarding_body(status@, stamp@),
        view_wf(v@),
{
    let mut d = Document::single(String::from_str("BoardingStatus"), Value::Str(String::from_str(status)));
    let ghost first = d@;
    proof {
        assert("BoardingStatus"@ != "LastUpdate"@) by {
            reveal_strlit("BoardingStatus");
            reveal_strlit("LastUpdate");
            assert("BoardingStatus"@.len() != "LastUpdate"@.len());
        }
        assert(first.len() == 1 && first[0].0 == "BoardingStatus"@);
        assert(!crate::value::has_key(first, "LastUpdate"@));
    }
    d.insert(String::from_str("LastUpdate"), Value::Str(stamp.clone()));
    assert(d@ =~= seq![("BoardingStatus"@, ValueView::Str(status@)), ("LastUpdate"@, ValueView::Str(stamp@))]);
    Value::Doc(d)
}

fn plan_calls(plan: &BoardingPlan, system_information: &Result<Value, String>, stamp: &String) -> (r:
    Vec<PlannedPatch>)
    requires
        body_wf(*system_information),
    ensures
        pending_view(r) == planned_calls(*plan, body_view(*system_information), stamp@),
        forall|i: int| 0 <= i < r@.len() ==> body_wf(#[trigger] r@[i].body),
{
    let mut calls: Vec<PlannedPatch> = Vec::new();
    match plan {
        BoardingPlan::Offboard => {
            calls.push(
                planned(
                    PatchTarget::Database,
                    "ManagedDevice",
                    Ok(boarding_document("OFFBOARDED", stamp)),
                    None,
                    "Failed to offboard: ",
                ),
            );
            calls.push(
                planned(
                    PatchTarget::Server,
                    "ManagedDevice",
                    Ok(boarding_document("OFFBOARDED", stamp)),
                    Some("Successful offboarding"),
                    "Failed to offboard: ",
                ),
            );
        },
        BoardingPlan::Onboard => {
            calls.push(
                planned(
                    PatchTarget::Database,
                    "ManagedDevice",
                    Ok(boarding_document("ONBOARDED", stamp)),
                    None,
                    "Failed to onboard: ",
                ),
            );
            calls.push(
                planned(
                    PatchTarget::Server,
                    "ManagedDevice",
                    Ok(boarding_document("ONBOARDED", stamp)),
                    Some("Successful onboarding"),
                    "Failed to onboard: ",
                ),
            );
            calls.push(
                planned(
                    PatchTarget::Server,
                    "SystemInformation",
                    clone_body(system_information),
                    Some("Successful pushing system information to server"),
                    "Failed to patch submodel server: ",
                ),
            );
        },
        BoardingPlan::PushOnly => {
            calls.push(
                planned(
                    PatchTarget::Server,
                    "SystemInformation",
                    clone_body(system_information),
                    Some("Successful pushing system information to server"),
                    "Failed to patch submodel server: ",
                ),
            );
        },
        _ => {},
    }
    assert(pending_view(calls) =~= planned_calls(*plan, body_view(*system_information), stamp@));
    calls
}

/// The plan for a device submodel read at `now` (a readable one).
fn decide(device: &Document, now: &Instant) -> (r: BoardingPlan)
    requires
        device.wf(),
        device_readable(device@),
    ensures
        r == boarding_plan(device@, *now),
{
    let status = match device.get(&String::from_str("BoardingStatus")) {
        None => {
            return BoardingPlan::MissingStatus;
        },
        Some(Value::Str(s)) => s,
        Some(_) => {
            return BoardingPlan::Nothing;
        },
    };
    let text = match device.get(&String::from_str("LastUpdate")) {
        None => {
            return BoardingPlan::MissingLastUpdate;
        },
        Some(Value::Str(s)) => s,
        Some(_) => {
            return BoardingPlan::Nothing;
        },
    };
    let last = match parse_date_time_from_string(text.as_str()) {
        Some(t) => t,
        None => {
            return BoardingPlan::Nothing;
        },
    };
    assert(read_instant(text@) == last);
    if *status == String::from_str("OFFBOARDING_REQUESTED") {
        BoardingPlan::Offboard
    } else if *status == String::from_str("OFFBOARDED") {
        if seconds_between(now, &last) < OFFBOARDED_GRACE_SECS {
            BoardingPlan::Wait
        } else {
            BoardingPlan::Onboard
        }
    } else if *status == String::from_str("ONBOARDED") {
        BoardingPlan::PushOnly
    } else {
        BoardingPlan::Nothing
    }
}

/// What one step of the pushing task does from `state` on `event`: the new
/// state and action (over the models, `push_next`), the line it prints, and
/// that every step brings the run closer to its end.
pub open spec fn pushing_step_done(
    aas_id_short: Seq<char>,
    state: PushState,
    event: PushEvent,
    r: PushStep,
) -> bool {
    &&& state_wf(r.state)
    &&& (state_view(r.state), action_view(r.action)) == push_next(
        aas_id_short,
        state_view(state),
        event_view(event),
    )
    &&& (r.state is Finished <==> r.action is Stop)
    &&& (!(state is Finished) ==> push_measure(r.state) < push_measure(state))
    &&& match (state, event) {
        (PushState::Start, PushEvent::Tick) => r.state is RunningScript && r.log is None && (
        r.action matches PushAction::RunScript(p) && p@ == "./scripts/aas_client/sysInfo.sh"@),
        (PushState::RunningScript, PushEvent::ScriptFailed(e)) => finishes(r) && prints_err(
            r.log,
            "Failed to execute script: "@ + e@,
        ),
        (PushState::RunningScript, PushEvent::ScriptOutput(b)) => r.log is None && (
        r.state matches PushState::StoringSystemInformation { system_information }
            && body_view(system_information) == body_view(b)) && (
        r.action matches PushAction::PatchDatabase { submodel, body } && submodel@
            == "SystemInformation"@ && body_view(body) == body_view(b)),
        (
            PushState::StoringSystemInformation { system_information: si },
            PushEvent::PatchDone(Err(e)),
        ) => finishes(r) && prints_err(r.log, "Failed to patch submodel: "@ + e@),
        (
            PushState::StoringSystemInformation { system_information: si },
            PushEvent::PatchDone(Ok(_)),
        ) => r.log is None && (r.state matches PushState::ReadingDevice { system_information }
            && body_view(system_information) == body_view(si)) && (
        r.action matches PushAction::ReadDevice { key } && key@ == submodel_key_text(
            aas_id_short,
            "ManagedDevice"@,
        )),
        (
            PushState::ReadingDevice { system_information: si },
            PushEvent::DeviceRead(Err(e), _),
        ) => finishes(r) && prints_err(r.log, "Failed to find managed device: "@ + e@),
        (
            PushState::ReadingDevice { system_information: si },
            PushEvent::DeviceRead(Ok(device), now),
        ) => match boarding_plan(device@, now) {
            BoardingPlan::MissingStatus => finishes(r) && prints_err(
                r.log,
                "Failed to get boarding status"@,
            ),
            BoardingPlan::MissingLastUpdate => finishes(r) && prints_err(
                r.log,
                "Failed to get last update"@,
            ),
            plan => r.log is None && rfc3339_instant(rfc3339_text(now.secs, now.nanos).unwrap())
                == Some((now.secs, now.nanos)) && starts_calls(
                r,
                planned_calls(
                    plan,
                    body_view(si),
                    rfc3339_text(now.secs, now.nanos).unwrap(),
                ),
            ),
        },
        (PushState::Patching { pending }, PushEvent::PatchDone(Err(e))) => finishes(r) && (
        pending@.len() > 0 ==> prints_err(r.log, pending@[0].failure@ + e@)) && (pending@.len()
            == 0 ==> r.log is None),
        (PushState::Patching { pending }, PushEvent::PatchDone(Ok(_))) => if pending@.len() > 0 {
            prints_out(r.log, opt_text(pending@[0].success)) && starts_calls(
                r,
                pending_view(pending).drop_first(),
            )
        } else {
            finishes(r) && r.log is None
        },
        _ => finishes(r) && r.log is None,
    }
}

/// One step of the task that pushes device data: it runs the system
/// information script, stores its output, reads the managed device's
/// submodel, and then makes the patches that the boarding status asks for
/// (see `boarding_plan` and `planned_calls`). Any failure is printed and ends
/// the run; so does an event that the state does not expect.
pub fn server_pushing_step(aas_id_short: &str, state: PushState, event: PushEvent) -> (r: PushStep)
    requires
        state_wf(state),
        event_wf(event),
        !push_panics(state, event),
    ensures
        pushing_step_done(aas_id_short@, state, event, r),
{
    match state {
        PushState::Start => match event {
            PushEvent::Tick => PushStep {
                state: PushState::RunningScript,
                log: None,
                action: PushAction::RunScript(String::from_str("./scripts/aas_client/sysInfo.sh")),
            },
            _ => finished(None),
        },
        PushState::RunningScript => match event {
            PushEvent::ScriptFailed(e) => finished(
                Some(LogLine::Stderr(concat("Failed to execute script: ", e.as_str()))),
            ),
            PushEvent::ScriptOutput(b) => {
                let body = clone_body(&b);
                PushStep {
                    state: PushState::StoringSystemInformation { system_information: b },
                    log: None,
                    action: PushAction::PatchDatabase {
                        submodel: String::from_str("SystemInformation"),
                        body,
                    },
                }
            },
            _ => finished(None),
        },
        PushState::StoringSystemInformation { system_information } => match event {
            PushEvent::PatchDone(Err(e)) => finished(
                Some(LogLine::Stderr(concat("Failed to patch submodel: ", e.as_str()))),
            ),
            PushEvent::PatchDone(Ok(_)) => PushStep {
                state: PushState::ReadingDevice { system_information },
                log: None,
                action: PushAction::ReadDevice { key: submodel_key(aas_id_short, "ManagedDevice") },
            },
            _ => finished(None),
        },
        PushState::ReadingDevice { system_information } => match event {
            PushEvent::DeviceRead(Err(e), _) => finished(
                Some(LogLine::Stderr(concat("Failed to find managed device: ", e.as_str()))),
            ),
            PushEvent::DeviceRead(Ok(device), now) => {
                let plan = decide(&device, &now);
                match plan {
                    BoardingPlan::MissingStatus => finished(
                        Some(LogLine::Stderr(String::from_str("Failed to get boarding status"))),
                    ),
                    BoardingPlan::MissingLastUpdate => finished(
                        Some(LogLine::Stderr(String::from_str("Failed to get last update"))),
                    ),
                    _ => {
                        let stamp = match format_rfc3339(&now) {
                            Some(s) => s,
                            None => String::new(),
                        };
                        let calls = plan_calls(&plan, &system_information, &stamp);
                        proof {
                            assert(pending_view(calls).len() == calls@.len());
                            assert(planned_calls(plan, body_view(system_information), stamp@).len() <= 3);
                        }
                        let step = start_calls(calls, None);
                        assert(push_measure(step.state) <= 4);
                        step
                    },
                }
            },
            _ => finished(None),
        },
        PushState::Patching { pending } => match event {
            PushEvent::PatchDone(Err(e)) => {
                if pending.len() == 0 {
                    finished(None)
                } else {
                    let mut m = pending[0].failure.clone();
                    m.append(e.as_str());
                    finished(Some(LogLine::Stderr(m)))
                }
            },
            PushEvent::PatchDone(Ok(_)) => {
                if pending.len() == 0 {
                    finished(None)
                } else {
                    let mut rest = pending;
                    let ghost before = rest@;
                    let current = rest.remove(0);
                    let log = match current.success {
                        Some(s) => Some(LogLine::Stdout(s)),
                        None => None,
                    };
                    proof {
                        assert(pending_view(rest) =~= pending_view(pending).drop_first());
                    }
                    let ghost n = rest@.len();
                    let step = start_calls(rest, log);
                    assert(push_measure(step.state) <= n + 1);
                    step
                }
            },
            _ => finished(None),
        },
        PushState::Finished => finished(None),
    }
}

/// A device that a run offboarded at `t0` (its stored submodel, which had a
/// boarding status and a last update, patched with the offboarding body
/// stamped at `t0`) boards again at a later run at `now` exactly when at least
/// 120 whole seconds passed since `t0`; before that the run does nothing.
pub proof fn lemma_offboarding_grace_period(stored: Entries, stamp: Seq<char>, t0: Instant, now: Instant)
    requires
        entries_wf(stored),
        has_key(stored, "BoardingStatus"@),
        has_key(stored, "LastUpdate"@),
        rfc3339_instant(stamp) == Some((t0.secs, t0.nanos)),
    ensures
        boarding_plan(merge_entries(stored, boarding_body("OFFBOARDED"@, stamp)->Doc_0), now) == if whole_seconds_between(now, t0) < 120 {
            BoardingPlan::Wait
        } else {
            BoardingPlan::Onboard
        },
{
    let patch = boarding_body("OFFBOARDED"@, stamp)->Doc_0;
    assert("BoardingStatus"@ != "LastUpdate"@) by {
        reveal_strlit("BoardingStatus");
        reveal_strlit("LastUpdate");
        assert("BoardingStatus"@.len() != "LastUpdate"@.len());
    }
    assert("OFFBOARDED"@ != "OFFBOARDING_REQUESTED"@) by {
        reveal_strlit("OFFBOARDED");
        reveal_strlit("OFFBOARDING_REQUESTED");
        assert("OFFBOARDED"@.len() != "OFFBOARDING_REQUESTED"@.len());
    }
    assert(keys_unique(patch));
    assert forall|i: int| 0 <= i < patch.len() implies view_wf(#[trigger] patch[i].1) by {
    }
    assert(entries_wf(patch));
    lemma_merge_lookup(stored, patch);
    lemma_key_pos_unique(patch, 0);
    lemma_key_pos_unique(patch, 1);
    let m = merge_entries(stored, patch);
    assert(lookup(m, "BoardingStatus"@) == Some(ValueView::Str("OFFBOARDED"@)));
    assert(lookup(m, "LastUpdate"@) == Some(ValueView::Str(stamp)));
    assert(read_instant(stamp) == t0);
}

/// `server_pushing_step`, but `None` on the inputs where the task would stop
/// on a panic (a device submodel whose boarding status or last update is not
/// a string, or whose last update is not an RFC 3339 time).
pub fn server_pushing_step_checked(aas_id_short: &str, state: PushState, event: PushEvent) -> (r:
    Option<PushStep>)
    requires
        state_wf(state),
        event_wf(event),
    ensures
        match r {
            Some(step) => !push_panics(state, event) && pushing_step_done(aas_id_short@, state, event, step),
            None => push_panics(state, event),
        },
{
    let panics = match (&state, &event) {
        (PushState::ReadingDevice { .. }, PushEvent::DeviceRead(Ok(device), _)) => !readable(device),
        _ => false,
    };
    if panics {
        None
    } else {
        Some(server_pushing_step(aas_id_short, state, event))
    }
}

fn readable(device: &Document) -> (r: bool)
    requires
        device.wf(),
    ensures
        r == device_readable(device@),
{
    match device.get(&String::from_str("BoardingStatus")) {
        None => true,
        Some(Value::Str(_)) => match device.get(&String::from_str("LastUpdate")) {
            None => true,
            Some(Value::Str(text)) => parse_date_time_from_string(text.as_str()).is_some(),
            Some(_) => false,
        },
        Some(_) => false,
    }
}

/// What the polling task prints once it fetched the managed device's submodel.
pub fn polling_report(fetched: Result<(), String>) -> (r: LogLine)
    ensures
        match fetched {
            Ok(()) => r matches LogLine::Stdout(s) && s@
                == "Successful fetching submodel ManagedDevice from server"@,
            Err(e) => r matches LogLine::Stderr(s) && s@
                == "Failed to fetch submodel ManagedDevice from server: "@ + e@,
        },
{
    match fetched {
        Ok(()) => LogLine::Stdout(String::from_str("Successful fetching submodel ManagedDevice from server")),
        Err(e) => LogLine::Stderr(concat("Failed to fetch submodel ManagedDevice from server: ", e.as_str())),
    }
}

/// The instant that an RFC 3339 text denotes.
pub open spec fn instant_of(text: Seq<char>) -> Instant {
    Instant { secs: rfc3339_instant(text).unwrap().0, nanos: rfc3339_instant(text).unwrap().1 }
}

/// What the managed device's boarding status makes the pushing task do once
/// the device is read (its status and last update strings, the last update
/// an RFC 3339 time):
/// - `OFFBOARDING_REQUESTED`: patch the device in the database to
///   `OFFBOARDED`, stamped with the time of the read;
/// - `OFFBOARDED`, less than 120 whole seconds after the last update: stop;
/// - `OFFBOARDED`, at least 120 whole seconds after: patch it to `ONBOARDED`;
/// - `ONBOARDED`, at any time: push the system information to the server;
/// - any other status: stop.
/// The patches that follow, with what each prints, are spelled out in full.
pub proof fn lemma_boarding_status_decides(
    aas_id_short: Seq<char>,
    system_information: Result<ValueView, Seq<char>>,
    device: Entries,
    now: Instant,
    status: Seq<char>,
    last_update: Seq<char>,
)
    requires
        lookup(device, "BoardingStatus"@) == Some(ValueView::Str(status)),
        lookup(device, "LastUpdate"@) == Some(ValueView::Str(last_update)),
        rfc3339_instant(last_update) is Some,
    ensures
        ({
            let stamp = rfc3339_text(now.secs, now.nanos).unwrap();
            let n = push_next(
                aas_id_short,
                StateView::ReadingDevice(system_information),
                EventView::DeviceRead(Some(device), now),
            );
            let elapsed = whole_seconds_between(now, instant_of(last_update));
            let offboarded = Ok(
                ValueView::Doc(
                    seq![
                        ("BoardingStatus"@, ValueView::Str("OFFBOARDED"@)),
                        ("LastUpdate"@, ValueView::Str(stamp)),
                    ],
                ),
            );
            let onboarded = Ok(
                ValueView::Doc(
                    seq![
                        ("BoardingStatus"@, ValueView::Str("ONBOARDED"@)),
                        ("LastUpdate"@, ValueView::Str(stamp)),
                    ],
                ),
            );
            let push = PatchView {
                target: PatchTarget::Server,
                submodel: "SystemInformation"@,
                body: system_information,
                success: Some("Successful pushing system information to server"@),
                failure: "Failed to patch submodel server: "@,
            };
            &&& status == "OFFBOARDING_REQUESTED"@ ==> n == (
                StateView::Patching(
                    seq![
                        PatchView {
                            target: PatchTarget::Database,
                            submodel: "ManagedDevice"@,
                            body: offboarded,
                            success: None,
                            failure: "Failed to offboard: "@,
                        },
                        PatchView {
                            target: PatchTarget::Server,
                            submodel: "ManagedDevice"@,
                            body: offboarded,
                            success: Some("Successful offboarding"@),
                            failure: "Failed to offboard: "@,
                        },
                    ],
                ),
                ActionView::PatchDatabase("ManagedDevice"@, offboarded),
            )
            &&& status == "OFFBOARDED"@ && elapsed < 120 ==> n == (StateView::Finished, ActionView::Stop)
            &&& status == "OFFBOARDED"@ && elapsed >= 120 ==> n == (
                StateView::Patching(
                    seq![
                        PatchView {
                            target: PatchTarget::Database,
                            submodel: "ManagedDevice"@,
                            body: onboarded,
                            success: None,
                            failure: "Failed to onboard: "@,
                        },
                        PatchView {
                            target: PatchTarget::Server,
                            submodel: "ManagedDevice"@,
                            body: onboarded,
                            success: Some("Successful onboarding"@),
                            failure: "Failed to onboard: "@,
                        },
                        push,
                    ],
                ),
                ActionView::PatchDatabase("ManagedDevice"@, onboarded),
            )
            &&& status == "ONBOARDED"@ ==> n == (
                StateView::Patching(seq![push]),
                ActionView::PatchServer("SystemInformation"@, system_information),
            )
            &&& status != "OFFBOARDING_REQUESTED"@ && status != "OFFBOARDED"@ && status != "ONBOARDED"@
                ==> n == (StateView::Finished, ActionView::Stop)
        }),
{
    reveal_strlit("OFFBOARDED");
    reveal_strlit("OFFBOARDING_REQUESTED");
    reveal_strlit("ONBOARDED");
    assert("OFFBOARDED"@.len() != "OFFBOARDING_REQUESTED"@.len());
    assert("ONBOARDED"@.len() != "OFFBOARDING_REQUESTED"@.len());
    assert("ONBOARDED"@[1] != "OFFBOARDED"@[1]);
    assert(read_instant(last_update) == instant_of(last_update));
    let stamp = rfc3339_text(now.secs, now.nanos).unwrap();
    let plan = boarding_plan(device, now);
    let calls = planned_calls(plan, system_information, stamp);
    if status == "OFFBOARDING_REQUESTED"@ {
        assert(plan == BoardingPlan::Offboard);
        assert(calls[0].body == Ok::<ValueView, Seq<char>>(boarding_body("OFFBOARDED"@, stamp)));
    } else if status == "OFFBOARDED"@ {
        if whole_seconds_between(now, instant_of(last_update)) >= 120 {
            assert(plan == BoardingPlan::Onboard);
            assert(calls[0].body == Ok::<ValueView, Seq<char>>(boarding_body("ONBOARDED"@, stamp)));
        }
    } else if status == "ONBOARDED"@ {
        assert(plan == BoardingPlan::PushOnly);
    }
}

/// A device without a boarding status, or with a string status and no last
/// update, ends the run.
pub proof fn lemma_missing_boarding_fields_stop(
    aas_id_short: Seq<char>,
    system_information: Result<ValueView, Seq<char>>,
    device: Entries,
    now: Instant,
)
    requires
        lookup(device, "BoardingStatus"@) is None || (lookup(device, "BoardingStatus"@).unwrap() is Str
            && lookup(device, "LastUpdate"@) is None),
    ensures
        push_next(aas_id_short, StateView::ReadingDevice(system_information), EventView::DeviceRead(Some(device), now))
            == (StateView::Finished, ActionView::Stop),
{
}

/// The pushing task stops on a panic exactly where the device it read has a
/// boarding status that is not a string, or a string status with a last
/// update that is not a string or not an RFC 3339 time; a device with a
/// string status and a readable (or missing) last update, or with no status,
/// is always stepped.
pub proof fn lemma_push_panics_exactly(state: PushState, event: PushEvent)
    ensures
        push_panics(state, event) <==> (state is ReadingDevice && match event {
            PushEvent::DeviceRead(Ok(d), _) => match lookup(d@, "BoardingStatus"@) {
                None => false,
                Some(ValueView::Str(_)) => match lookup(d@, "LastUpdate"@) {
                    None => false,
                    Some(ValueView::Str(text)) => rfc3339_instant(text) is None,
                    Some(_) => true,
                },
                Some(_) => true,
            },
            _ => false,
        }),
{
}

} // verus!
