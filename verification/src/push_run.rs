use vstd::prelude::*;
use vstd::string::*;

use crate::aas_interfaces::submodel_key_text;
use crate::merge::{lemma_merge_lookup, merge_entries};
use crate::scheduler_task::{
    boarding_body, boarding_plan, calls_next, planned_calls, push_next, read_instant, ActionView,
    BoardingPlan, EventView, StateView,
};
use crate::store::{database_patch, lemma_patched_lookup, set_fields, store_wf, Store};
use crate::time::{rfc3339_instant, rfc3339_text, whole_seconds_between, Instant};
use crate::value::{entries_wf, keys_unique, lemma_key_pos_unique, lookup, view_wf, Entries, ValueView};

verus! {

/// The patch that `patch_submodel_server` sends for a submodel: the stored
/// submodel patched with the body; `None` when nothing is sent because the
/// submodel is not stored or the body is not a document.
pub open spec fn server_patch_body(
    store: Store,
    aas_id_short: Seq<char>,
    submodel: Seq<char>,
    body: Result<ValueView, Seq<char>>,
) -> Option<Entries> {
    let key = submodel_key_text(aas_id_short, submodel);
    match body {
        Ok(ValueView::Doc(fields)) => if store.contains_key(key) {
            Some(merge_entries(store[key], fields))
        } else {
            None
        },
        _ => None,
    }
}

/// The stored document `key`, as `aas_find_one` reads it.
pub open spec fn stored(store: Store, key: Seq<char>) -> Option<Entries> {
    if store.contains_key(key) {
        Some(store[key])
    } else {
        None
    }
}

/// Where a run of the pushing task stands: the task's state, the store, and
/// the patches sent to the AASX server so far (submodel and body).
pub struct RunView {
    pub state: StateView,
    pub store: Store,
    pub sent: Seq<(Seq<char>, Entries)>,
}

/// A run of the pushing task from state `s`, about to perform `a`: the store
/// answers every call, the script prints `script`, the clock reads `now`, and
/// the AASX server accepts the i-th patch it receives exactly when `server[i]`
/// holds (or when it is given no answer). `fuel` bounds the steps.
pub open spec fn run_from(
    aas_id_short: Seq<char>,
    s: StateView,
    a: ActionView,
    store: Store,
    script: Result<ValueView, Seq<char>>,
    now: Instant,
    server: Seq<bool>,
    sent: Seq<(Seq<char>, Entries)>,
    fuel: nat,
) -> RunView
    decreases fuel,
{
    if fuel == 0 {
        RunView { state: s, store, sent }
    } else {
        let f = (fuel - 1) as nat;
        match a {
            ActionView::Stop => RunView { state: s, store, sent },
            ActionView::RunScript(_) => {
                let n = push_next(aas_id_short, s, EventView::ScriptOutput(script));
                run_from(aas_id_short, n.0, n.1, store, script, now, server, sent, f)
            },
            ActionView::PatchDatabase(submodel, body) => {
                let (after, ok) = database_patch(store, aas_id_short, submodel, body);
                let n = push_next(aas_id_short, s, EventView::PatchDone(ok));
                run_from(aas_id_short, n.0, n.1, after, script, now, server, sent, f)
            },
            ActionView::PatchServer(submodel, body) => match server_patch_body(
                store,
                aas_id_short,
                submodel,
                body,
            ) {
                Some(patch) => {
                    let ok = server.len() == 0 || server[0];
                    let rest = if server.len() == 0 {
                        server
                    } else {
                        server.drop_first()
                    };
                    let n = push_next(aas_id_short, s, EventView::PatchDone(ok));
                    run_from(aas_id_short, n.0, n.1, store, script, now, rest, sent.push((submodel, patch)), f)
                },
                None => {
                    let n = push_next(aas_id_short, s, EventView::PatchDone(false));
                    run_from(aas_id_short, n.0, n.1, store, script, now, server, sent, f)
                },
            },
            ActionView::ReadDevice(key) => {
                let n = push_next(aas_id_short, s, EventView::DeviceRead(stored(store, key), now));
                run_from(aas_id_short, n.0, n.1, store, script, now, server, sent, f)
            },
        }
    }
}

/// A whole run of the pushing task, started by the scheduler.
pub open spec fn push_run(
    aas_id_short: Seq<char>,
    store: Store,
    script: Result<ValueView, Seq<char>>,
    now: Instant,
    server: Seq<bool>,
) -> RunView {
    let n = push_next(aas_id_short, StateView::Start, EventView::Tick);
    run_from(aas_id_short, n.0, n.1, store, script, now, server, Seq::empty(), 10)
}

/// The managed device's boarding status and last update after a run, given
/// the ones stored before it.
pub open spec fn boarding_after_run(status: Seq<char>, last_update: Seq<char>, now: Instant) -> (
    Seq<char>,
    Seq<char>,
) {
    let stamp = rfc3339_text(now.secs, now.nanos).unwrap();
    if status == "OFFBOARDING_REQUESTED"@ {
        ("OFFBOARDED"@, stamp)
    } else if status == "OFFBOARDED"@ && whole_seconds_between(now, read_instant(last_update)) >= 120 {
        ("ONBOARDED"@, stamp)
    } else {
        (status, last_update)
    }
}

pub open spec fn device_key(aas_id_short: Seq<char>) -> Seq<char> {
    submodel_key_text(aas_id_short, "ManagedDevice"@)
}

pub open spec fn system_key(aas_id_short: Seq<char>) -> Seq<char> {
    submodel_key_text(aas_id_short, "SystemInformation"@)
}

proof fn lemma_keys_differ(aas_id_short: Seq<char>)
    ensures
        device_key(aas_id_short) != system_key(aas_id_short),
        "ManagedDevice"@ != "SystemInformation"@,
        "BoardingStatus"@ != "LastUpdate"@,
        "OFFBOARDED"@ != "OFFBOARDING_REQUESTED"@,
        "ONBOARDED"@ != "OFFBOARDING_REQUESTED"@,
        "ONBOARDED"@ != "OFFBOARDED"@,
{
    reveal_strlit("ManagedDevice");
    reveal_strlit("SystemInformation");
    reveal_strlit("BoardingStatus");
    reveal_strlit("LastUpdate");
    reveal_strlit("OFFBOARDED");
    reveal_strlit("OFFBOARDING_REQUESTED");
    reveal_strlit("ONBOARDED");
    assert(device_key(aas_id_short).len() != system_key(aas_id_short).len());
    assert("ManagedDevice"@.len() != "SystemInformation"@.len());
    assert("BoardingStatus"@.len() != "LastUpdate"@.len());
    assert("OFFBOARDED"@.len() != "OFFBOARDING_REQUESTED"@.len());
    assert("ONBOARDED"@.len() != "OFFBOARDING_REQUESTED"@.len());
    assert("ONBOARDED"@[1] != "OFFBOARDED"@[1]);
}

/// The first three steps of a run: the script runs, its output is stored,
/// and the managed device is read.
proof fn lemma_run_prefix(
    aas_id_short: Seq<char>,
    store: Store,
    script: Result<ValueView, Seq<char>>,
    now: Instant,
    server: Seq<bool>,
)
    requires
        script matches Ok(ValueView::Doc(_)),
        store.contains_key(system_key(aas_id_short)),
    ensures
        ({
            let store1 = database_patch(store, aas_id_short, "SystemInformation"@, script).0;
            let n = push_next(
                aas_id_short,
                StateView::ReadingDevice(script),
                EventView::DeviceRead(stored(store1, device_key(aas_id_short)), now),
            );
            &&& database_patch(store, aas_id_short, "SystemInformation"@, script).1
            &&& push_run(aas_id_short, store, script, now, server) == run_from(
                aas_id_short,
                n.0,
                n.1,
                store1,
                script,
                now,
                server,
                Seq::empty(),
                7,
            )
        }),
{
    let e = Seq::<(Seq<char>, Entries)>::empty();
    let n0 = push_next(aas_id_short, StateView::Start, EventView::Tick);
    let n1 = push_next(aas_id_short, n0.0, EventView::ScriptOutput(script));
    assert(n1 == (
        StateView::StoringSystemInformation(script),
        ActionView::PatchDatabase("SystemInformation"@, script),
    ));
    assert(push_run(aas_id_short, store, script, now, server) == run_from(
        aas_id_short,
        n1.0,
        n1.1,
        store,
        script,
        now,
        server,
        e,
        9,
    ));
    let (store1, ok) = database_patch(store, aas_id_short, "SystemInformation"@, script);
    assert(ok);
    let n2 = push_next(aas_id_short, n1.0, EventView::PatchDone(true));
    assert(n2 == (StateView::ReadingDevice(script), ActionView::ReadDevice(device_key(aas_id_short))));
    assert(run_from(aas_id_short, n1.0, n1.1, store, script, now, server, e, 9) == run_from(
        aas_id_short,
        n2.0,
        n2.1,
        store1,
        script,
        now,
        server,
        e,
        8,
    ));
}

/// The boarding patch, as entries.
proof fn lemma_boarding_body(status: Seq<char>, stamp: Seq<char>)
    ensures
        boarding_body(status, stamp) is Doc,
        entries_wf(boarding_body(status, stamp)->Doc_0),
        lookup(boarding_body(status, stamp)->Doc_0, "BoardingStatus"@) == Some(ValueView::Str(status)),
        lookup(boarding_body(status, stamp)->Doc_0, "LastUpdate"@) == Some(ValueView::Str(stamp)),
{
    lemma_keys_differ(Seq::empty());
    let b = boarding_body(status, stamp)->Doc_0;
    assert(keys_unique(b));
    assert forall|i: int| 0 <= i < b.len() implies view_wf(#[trigger] b[i].1) by {
    }
    lemma_key_pos_unique(b, 0);
    lemma_key_pos_unique(b, 1);
}

/// What the managed device holds after a device patch with a boarding body.
proof fn lemma_device_patched(store: Store, aas_id_short: Seq<char>, status: Seq<char>, stamp: Seq<char>)
    requires
        store_wf(store),
        store.contains_key(device_key(aas_id_short)),
        lookup(store[device_key(aas_id_short)], "BoardingStatus"@) is Some,
        lookup(store[device_key(aas_id_short)], "LastUpdate"@) is Some,
    ensures
        ({
            let (after, ok) = database_patch(store, aas_id_short, "ManagedDevice"@, Ok(boarding_body(status, stamp)));
            &&& ok
            &&& after.contains_key(device_key(aas_id_short))
            &&& lookup(after[device_key(aas_id_short)], "BoardingStatus"@) == Some(ValueView::Str(status))
            &&& lookup(after[device_key(aas_id_short)], "LastUpdate"@) == Some(ValueView::Str(stamp))
        }),
{
    let key = device_key(aas_id_short);
    let d = store[key];
    let b = boarding_body(status, stamp)->Doc_0;
    lemma_boarding_body(status, stamp);
    assert(entries_wf(d));
    lemma_merge_lookup(d, b);
    lemma_patched_lookup(d, b);
    let m = merge_entries(d, b);
    assert(lookup(m, "BoardingStatus"@) == Some(ValueView::Str(status)));
    assert(lookup(m, "LastUpdate"@) == Some(ValueView::Str(stamp)));
}

/// The boarding status a run leaves on the managed device: a requested
/// offboarding becomes `OFFBOARDED`, a device offboarded at least 120 whole
/// seconds ago becomes `ONBOARDED` again (both stamped with the time of the
/// run), and any other status stays as it was, with its last update. This
/// holds whatever the AASX server answers, and the run ends.
pub proof fn lemma_run_boarding(
    aas_id_short: Seq<char>,
    store: Store,
    system_information: Entries,
    now: Instant,
    server: Seq<bool>,
    status: Seq<char>,
    last_update: Seq<char>,
)
    requires
        store_wf(store),
        entries_wf(system_information),
        store.contains_key(system_key(aas_id_short)),
        store.contains_key(device_key(aas_id_short)),
        lookup(store[device_key(aas_id_short)], "BoardingStatus"@) == Some(ValueView::Str(status)),
        lookup(store[device_key(aas_id_short)], "LastUpdate"@) == Some(ValueView::Str(last_update)),
        rfc3339_instant(last_update) is Some,
    ensures
        ({
            let r = push_run(aas_id_short, store, Ok(ValueView::Doc(system_information)), now, server);
            let expected = boarding_after_run(status, last_update, now);
            &&& r.state is Finished
            &&& r.store.contains_key(device_key(aas_id_short))
            &&& lookup(r.store[device_key(aas_id_short)], "BoardingStatus"@) == Some(
                ValueView::Str(expected.0),
            )
            &&& lookup(r.store[device_key(aas_id_short)], "LastUpdate"@) == Some(
                ValueView::Str(expected.1),
            )
        }),
{
    let script = Ok(ValueView::Doc(system_information));
    let md = device_key(aas_id_short);
    let e = Seq::<(Seq<char>, Entries)>::empty();
    lemma_keys_differ(aas_id_short);
    lemma_run_prefix(aas_id_short, store, script, now, server);
    let store1 = database_patch(store, aas_id_short, "SystemInformation"@, script).0;
    assert(store1[md] == store[md]);
    assert(store_wf(store1)) by {
        assert forall|k: Seq<char>| store1.contains_key(k) implies entries_wf(#[trigger] store1[k]) by {
            if k == system_key(aas_id_short) {
                lemma_patched_lookup(store[k], system_information);
            }
        }
    }
    let device = store1[md];
    let plan = boarding_plan(device, now);
    let stamp = rfc3339_text(now.secs, now.nanos).unwrap();
    let calls = planned_calls(plan, script, stamp);
    let n3 = push_next(aas_id_short, StateView::ReadingDevice(script), EventView::DeviceRead(Some(device), now));
    assert(stored(store1, md) == Some(device));
    assert(n3 == calls_next(calls));
    let expected = boarding_after_run(status, last_update, now);
    let r = push_run(aas_id_short, store, script, now, server);
    assert(r == run_from(aas_id_short, n3.0, n3.1, store1, script, now, server, e, 7));
    match plan {
        BoardingPlan::Offboard => {
            assert(status == "OFFBOARDING_REQUESTED"@);
            let body = Ok(boarding_body("OFFBOARDED"@, stamp));
            assert(calls.len() == 2);
            assert(n3.1 == ActionView::PatchDatabase("ManagedDevice"@, body));
            lemma_device_patched(store1, aas_id_short, "OFFBOARDED"@, stamp);
            let store2 = database_patch(store1, aas_id_short, "ManagedDevice"@, body).0;
            let n4 = push_next(aas_id_short, n3.0, EventView::PatchDone(true));
            assert(calls.drop_first() =~= seq![calls[1]]);
            assert(n4.1 == ActionView::PatchServer("ManagedDevice"@, body));
            assert(r == run_from(aas_id_short, n4.0, n4.1, store2, script, now, server, e, 6));
            let patch = server_patch_body(store2, aas_id_short, "ManagedDevice"@, body);
            assert(patch is Some);
            let ok = server.len() == 0 || server[0];
            let rest = if server.len() == 0 {
                server
            } else {
                server.drop_first()
            };
            let n5 = push_next(aas_id_short, n4.0, EventView::PatchDone(ok));
            assert(seq![calls[1]].drop_first() =~= Seq::<crate::scheduler_task::PatchView>::empty());
            assert(n5 == (StateView::Finished, ActionView::Stop));
            assert(r == run_from(aas_id_short, n5.0, n5.1, store2, script, now, rest, e.push(("ManagedDevice"@, patch.unwrap())), 5));
        },
        BoardingPlan::Onboard => {
            assert(status == "OFFBOARDED"@);
            let body = Ok(boarding_body("ONBOARDED"@, stamp));
            assert(calls.len() == 3);
            assert(n3.1 == ActionView::PatchDatabase("ManagedDevice"@, body));
            lemma_device_patched(store1, aas_id_short, "ONBOARDED"@, stamp);
            let store2 = database_patch(store1, aas_id_short, "ManagedDevice"@, body).0;
            let n4 = push_next(aas_id_short, n3.0, EventView::PatchDone(true));
            let tail = calls.drop_first();
            assert(tail =~= seq![calls[1], calls[2]]);
            assert(n4 == (StateView::Patching(tail), ActionView::PatchServer("ManagedDevice"@, body)));
            assert(r == run_from(aas_id_short, n4.0, n4.1, store2, script, now, server, e, 6));
            let patch = server_patch_body(store2, aas_id_short, "ManagedDevice"@, body);
            assert(patch is Some);
            let ok = server.len() == 0 || server[0];
            let rest = if server.len() == 0 {
                server
            } else {
                server.drop_first()
            };
            let sent1 = e.push(("ManagedDevice"@, patch.unwrap()));
            let n5 = push_next(aas_id_short, n4.0, EventView::PatchDone(ok));
            assert(r == run_from(aas_id_short, n5.0, n5.1, store2, script, now, rest, sent1, 5));
            if ok {
                assert(tail.drop_first() =~= seq![calls[2]]);
                assert(n5.1 == ActionView::PatchServer("SystemInformation"@, script));
                let patch2 = server_patch_body(store2, aas_id_short, "SystemInformation"@, script);
                assert(store2.contains_key(system_key(aas_id_short)));
                assert(patch2 is Some);
                let ok2 = rest.len() == 0 || rest[0];
                let rest2 = if rest.len() == 0 {
                    rest
                } else {
                    rest.drop_first()
                };
                let n6 = push_next(aas_id_short, n5.0, EventView::PatchDone(ok2));
                assert(seq![calls[2]].drop_first() =~= Seq::<crate::scheduler_task::PatchView>::empty());
                assert(n6 == (StateView::Finished, ActionView::Stop));
                assert(r == run_from(
                    aas_id_short,
                    n6.0,
                    n6.1,
                    store2,
                    script,
                    now,
                    rest2,
                    sent1.push(("SystemInformation"@, patch2.unwrap())),
                    4,
                ));
            } else {
                assert(n5 == (StateView::Finished, ActionView::Stop));
            }
        },
        BoardingPlan::PushOnly => {
            assert(calls.len() == 1);
            assert(n3.1 == ActionView::PatchServer("SystemInformation"@, script));
            let patch = server_patch_body(store1, aas_id_short, "SystemInformation"@, script);
            assert(patch is Some);
            let ok = server.len() == 0 || server[0];
            let rest = if server.len() == 0 {
                server
            } else {
                server.drop_first()
            };
            let n4 = push_next(aas_id_short, n3.0, EventView::PatchDone(ok));
            assert(calls.drop_first() =~= Seq::<crate::scheduler_task::PatchView>::empty());
            assert(n4 == (StateView::Finished, ActionView::Stop));
            assert(r == run_from(aas_id_short, n4.0, n4.1, store1, script, now, rest, e.push(("SystemInformation"@, patch.unwrap())), 6));
        },
        _ => {
            assert(calls.len() == 0);
            assert(n3 == (StateView::Finished, ActionView::Stop));
        },
    }
}

/// The system information leaves the device only when the device is, or
/// becomes, onboarded: in a run that offboards the device or waits out the
/// grace period, the patches sent to the AASX server do not depend on the
/// script's output, and none of them is the system information.
pub proof fn lemma_run_keeps_system_information(
    aas_id_short: Seq<char>,
    store: Store,
    first: Entries,
    second: Entries,
    now: Instant,
    server: Seq<bool>,
    status: Seq<char>,
    last_update: Seq<char>,
)
    requires
        store_wf(store),
        entries_wf(first),
        entries_wf(second),
        store.contains_key(system_key(aas_id_short)),
        store.contains_key(device_key(aas_id_short)),
        lookup(store[device_key(aas_id_short)], "BoardingStatus"@) == Some(ValueView::Str(status)),
        lookup(store[device_key(aas_id_short)], "LastUpdate"@) == Some(ValueView::Str(last_update)),
        rfc3339_instant(last_update) is Some,
        status == "OFFBOARDING_REQUESTED"@ || (status == "OFFBOARDED"@ && whole_seconds_between(
            now,
            read_instant(last_update),
        ) < 120),
    ensures
        push_run(aas_id_short, store, Ok(ValueView::Doc(first)), now, server).sent == push_run(
            aas_id_short,
            store,
            Ok(ValueView::Doc(second)),
            now,
            server,
        ).sent,
        forall|i: int|
            0 <= i < push_run(aas_id_short, store, Ok(ValueView::Doc(first)), now, server).sent.len()
                ==> #[trigger] push_run(aas_id_short, store, Ok(ValueView::Doc(first)), now, server).sent[i].0
                != "SystemInformation"@,
{
    lemma_keys_differ(aas_id_short);
    lemma_sent_without_script(aas_id_short, store, first, now, server, status, last_update);
    lemma_sent_without_script(aas_id_short, store, second, now, server, status, last_update);
}

/// The patches that such a run sends, spelled out.
proof fn lemma_sent_without_script(
    aas_id_short: Seq<char>,
    store: Store,
    system_information: Entries,
    now: Instant,
    server: Seq<bool>,
    status: Seq<char>,
    last_update: Seq<char>,
)
    requires
        store_wf(store),
        entries_wf(system_information),
        store.contains_key(system_key(aas_id_short)),
        store.contains_key(device_key(aas_id_short)),
        lookup(store[device_key(aas_id_short)], "BoardingStatus"@) == Some(ValueView::Str(status)),
        lookup(store[device_key(aas_id_short)], "LastUpdate"@) == Some(ValueView::Str(last_update)),
        rfc3339_instant(last_update) is Some,
        status == "OFFBOARDING_REQUESTED"@ || (status == "OFFBOARDED"@ && whole_seconds_between(
            now,
            read_instant(last_update),
        ) < 120),
    ensures
        push_run(aas_id_short, store, Ok(ValueView::Doc(system_information)), now, server).sent == if status
            == "OFFBOARDING_REQUESTED"@ {
            seq![
                (
                    "ManagedDevice"@,
                    merge_entries(
                        set_fields(
                            store[device_key(aas_id_short)],
                            merge_entries(
                                store[device_key(aas_id_short)],
                                boarding_body("OFFBOARDED"@, rfc3339_text(now.secs, now.nanos).unwrap())->Doc_0,
                            ),
                        ),
                        boarding_body("OFFBOARDED"@, rfc3339_text(now.secs, now.nanos).unwrap())->Doc_0,
                    ),
                ),
            ]
        } else {
            Seq::empty()
        },
{
    let script = Ok(ValueView::Doc(system_information));
    let md = device_key(aas_id_short);
    let e = Seq::<(Seq<char>, Entries)>::empty();
    lemma_keys_differ(aas_id_short);
    lemma_run_prefix(aas_id_short, store, script, now, server);
    let store1 = database_patch(store, aas_id_short, "SystemInformation"@, script).0;
    assert(store1[md] == store[md]);
    let device = store1[md];
    let plan = boarding_plan(device, now);
    let stamp = rfc3339_text(now.secs, now.nanos).unwrap();
    let calls = planned_calls(plan, script, stamp);
    let n3 = push_next(aas_id_short, StateView::ReadingDevice(script), EventView::DeviceRead(Some(device), now));
    assert(stored(store1, md) == Some(device));
    assert(n3 == calls_next(calls));
    let r = push_run(aas_id_short, store, script, now, server);
    assert(r == run_from(aas_id_short, n3.0, n3.1, store1, script, now, server, e, 7));
    if status == "OFFBOARDING_REQUESTED"@ {
        assert(plan == BoardingPlan::Offboard);
        let body = Ok(boarding_body("OFFBOARDED"@, stamp));
        lemma_boarding_body("OFFBOARDED"@, stamp);
        assert(calls.len() == 2);
        assert(n3.1 == ActionView::PatchDatabase("ManagedDevice"@, body));
        let store2 = database_patch(store1, aas_id_short, "ManagedDevice"@, body).0;
        assert(store2[md] == set_fields(store[md], merge_entries(store[md], body->Ok_0->Doc_0)));
        let n4 = push_next(aas_id_short, n3.0, EventView::PatchDone(true));
        assert(calls.drop_first() =~= seq![calls[1]]);
        assert(n4.1 == ActionView::PatchServer("ManagedDevice"@, body));
        assert(r == run_from(aas_id_short, n4.0, n4.1, store2, script, now, server, e, 6));
        let patch = server_patch_body(store2, aas_id_short, "ManagedDevice"@, body);
        assert(patch is Some);
        let ok = server.len() == 0 || server[0];
        let rest = if server.len() == 0 {
            server
        } else {
            server.drop_first()
        };
        let n5 = push_next(aas_id_short, n4.0, EventView::PatchDone(ok));
        assert(seq![calls[1]].drop_first() =~= Seq::<crate::scheduler_task::PatchView>::empty());
        assert(n5 == (StateView::Finished, ActionView::Stop));
        assert(r == run_from(aas_id_short, n5.0, n5.1, store2, script, now, rest, e.push(("ManagedDevice"@, patch.unwrap())), 5));
        assert(r.sent =~= seq![("ManagedDevice"@, patch.unwrap())]);
    } else {
        assert(plan == BoardingPlan::Wait);
        assert(calls.len() == 0);
        assert(n3 == (StateView::Finished, ActionView::Stop));
    }
}

} // verus!
