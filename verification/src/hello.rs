//! The "hello" counter driver: a per-application counter in the host
//! kernel's grant storage, and one optional subscribed callback.
//!
//! The grant — per-(driver, application) storage whose state block is
//! value-initialised on first entry — is modelled as a map from
//! application identifier to state block. A callback the host would
//! schedule is recorded in the `scheduled` trace.

use vstd::prelude::*;

use std::collections::HashMap;

use crate::ReturnCode;

verus! {

broadcast use vstd::std_specs::hash::group_hash_axioms;

/// The driver's number in the host kernel's dispatch table.
pub const DRIVER_NUM: usize = 0xa0000000;

/// Per-application state block; the counter starts at 0 on first touch.
pub struct AppData {
    pub counter: usize,
}

impl Default for AppData {
    fn default() -> (d: AppData)
        ensures
            d.counter == 0,
    {
        AppData { counter: 0 }
    }
}

/// A handle to a user-space callback registered through subscribe. The
/// host performs the real upcall; the model keeps an identifier, so that
/// replacement and invocation stay observable.
#[derive(Clone, Copy, Debug, PartialEq, Eq, Structural)]
pub struct CallbackHandle {
    pub id: usize,
}

/// One scheduled callback invocation: the handle and its three
/// arguments.
#[derive(Clone, Copy, Debug, PartialEq, Eq, Structural)]
pub struct ScheduledCall {
    pub cb: CallbackHandle,
    pub arg0: usize,
    pub arg1: usize,
    pub arg2: usize,
}

/// The abstract state of the hello driver: each application's counter,
/// the subscribed callback if any, and the trace of scheduled upcalls.
#[verifier::ext_equal]
pub struct HelloView {
    pub counters: Map<usize, usize>,
    pub callback: Option<CallbackHandle>,
    pub scheduled: Seq<ScheduledCall>,
}

/// The hello driver.
pub struct Hello {
    pub grant: HashMap<usize, AppData>,
    pub callback: Option<CallbackHandle>,
    pub scheduled: Vec<ScheduledCall>,
}

impl View for Hello {
    type V = HelloView;

    open spec fn view(&self) -> HelloView {
        HelloView {
            counters: self.grant@.map_values(|a: AppData| a.counter),
            callback: self.callback,
            scheduled: self.scheduled@,
        }
    }
}

/// An application's counter: its entry in the grant map, or 0 where it
/// has no entry yet (the state block is value-initialised on first
/// entry).
pub open spec fn counter_of(m: Map<usize, usize>, app: usize) -> usize {
    if m.dom().contains(app) {
        m[app]
    } else {
        0
    }
}

/// The state of a freshly constructed hello driver: no counters, no
/// callback, nothing scheduled.
pub open spec fn initial_hello() -> HelloView {
    HelloView { counters: Map::empty(), callback: None, scheduled: Seq::empty() }
}

/// Increment one application's counter, touching no other application's.
pub open spec fn hello_bump(s: HelloView, app: usize) -> HelloView {
    HelloView {
        counters: s.counters.insert(app, (counter_of(s.counters, app) + 1) as usize),
        ..s
    }
}

/// The hello driver's command dispatch: 0 probes, 1 logs a line on the
/// host console, 2 increments the caller's counter and returns it, 3
/// does the same and also schedules the subscribed callback with the new
/// counter as first argument; anything else is unknown.
pub open spec fn hello_command(s: HelloView, command_num: usize, app: usize) -> (HelloView,
    ReturnCode) {
    if command_num == 0 {
        (s, ReturnCode::Success)
    } else if command_num == 1 {
        (s, ReturnCode::Success)
    } else if command_num == 2 {
        let c = (counter_of(s.counters, app) + 1) as usize;
        (hello_bump(s, app), ReturnCode::SuccessWithValue { value: c })
    } else if command_num == 3 {
        let c = (counter_of(s.counters, app) + 1) as usize;
        let b = hello_bump(s, app);
        let b2 = match s.callback {
            Some(cb) => HelloView {
                scheduled: b.scheduled + seq![
                    ScheduledCall { cb, arg0: c, arg1: 0, arg2: 0 },
                ],
                ..b
            },
            None => b,
        };
        (b2, ReturnCode::SuccessWithValue { value: c })
    } else {
        (s, ReturnCode::NotSupported)
    }
}

/// The hello driver's subscribe dispatch: slot 0 replaces the stored
/// callback with the given one (or clears it); any other slot is
/// unknown.
pub open spec fn hello_subscribe(s: HelloView, subscribe_num: usize, cb: Option<CallbackHandle>) -> (
    HelloView,
    ReturnCode,
) {
    if subscribe_num == 0 {
        (HelloView { callback: cb, ..s }, ReturnCode::Success)
    } else {
        (s, ReturnCode::NotSupported)
    }
}

/// One way a user application can enter the hello driver.
pub enum HelloEvent {
    Command { command_num: usize, app_id: usize },
    Subscribe { subscribe_num: usize, callback: Option<CallbackHandle> },
}

/// Whether an event increments `app`'s counter: a command 2 or 3 made by
/// that application.
pub open spec fn is_bump_for(ev: HelloEvent, app: usize) -> bool {
    match ev {
        HelloEvent::Command { command_num, app_id } => app_id == app && (command_num == 2
            || command_num == 3),
        HelloEvent::Subscribe { .. } => false,
    }
}

/// One driver entry.
pub open spec fn hello_step(s: HelloView, ev: HelloEvent) -> HelloView {
    match ev {
        HelloEvent::Command { command_num, app_id } => hello_command(s, command_num, app_id).0,
        HelloEvent::Subscribe { subscribe_num, callback } => hello_subscribe(
            s,
            subscribe_num,
            callback,
        ).0,
    }
}

/// The state after a whole sequence of driver entries.
pub open spec fn hello_run(s: HelloView, evs: Seq<HelloEvent>) -> HelloView
    decreases evs.len(),
{
    if evs.len() == 0 {
        s
    } else {
        hello_run(hello_step(s, evs[0]), evs.drop_first())
    }
}

/// How many events of `evs` increment `app`'s counter.
pub open spec fn bumps_for(evs: Seq<HelloEvent>, app: usize) -> nat
    decreases evs.len(),
{
    if evs.len() == 0 {
        0
    } else {
        bumps_for(evs.drop_first(), app) + (if is_bump_for(evs[0], app) {
            1nat
        } else {
            0nat
        })
    }
}

impl Hello {
    /// Construct the driver over an empty grant region.
    pub fn new() -> (h: Hello)
        ensures
            h@ == initial_hello(),
    {
        let h = Hello { grant: HashMap::new(), callback: None, scheduled: Vec::new() };
        proof {
            assert(h@.counters =~= initial_hello().counters);
            assert(h@ =~= initial_hello());
        }
        h
    }

    /// Read an application's counter out of the grant, 0 where the
    /// application has no state block yet.
    fn counter_for(&self, app_id: usize) -> (c: usize)
        ensures
            c == counter_of(self@.counters, app_id),
    {
        match self.grant.get(&app_id) {
            Some(a) => a.counter,
            None => 0,
        }
    }

    /// Store an application's counter back into the grant.
    fn set_counter(&mut self, app_id: usize, c: usize)
        ensures
            final(self)@ == (HelloView {
                counters: old(self)@.counters.insert(app_id, c),
                ..old(self)@
            }),
    {
        self.grant.insert(app_id, AppData { counter: c });
        proof {
            assert(self@.counters =~= old(self)@.counters.insert(app_id, c));
            assert(self@ =~= (HelloView {
                counters: old(self)@.counters.insert(app_id, c),
                ..old(self)@
            }));
        }
    }

    /// The subscribe entry: slot 0 registers (or replaces, or clears)
    /// the single callback; any other slot returns `NotSupported` and
    /// changes nothing.
    pub fn subscribe(&mut self, subscribe_num: usize, callback: Option<CallbackHandle>, _app_id:
        usize) -> (r: ReturnCode)
        ensures
            final(self)@ == hello_subscribe(old(self)@, subscribe_num, callback).0,
            r == hello_subscribe(old(self)@, subscribe_num, callback).1,
    {
        if subscribe_num == 0 {
            self.callback = callback;
            proof {
                assert(self@ =~= hello_subscribe(old(self)@, subscribe_num, callback).0);
            }
            ReturnCode::Success
        } else {
            ReturnCode::NotSupported
        }
    }

    /// The command entry: dispatch a numeric command for the calling
    /// application. Command 0 probes and has no effect; 1 logs a debug
    /// line on the host console; 2 increments the caller's counter and
    /// returns its new value; 3 does the same and schedules the
    /// subscribed callback, if any, with the new counter as first
    /// argument; any other number is unknown and changes nothing.
    pub fn command(&mut self, command_num: usize, _data1: usize, _data2: usize, app_id: usize) -> (r:
        ReturnCode)
        requires
            command_num == 2 || command_num == 3 ==> counter_of(old(self)@.counters, app_id)
                < usize::MAX,
        ensures
            final(self)@ == hello_command(old(self)@, command_num, app_id).0,
            r == hello_command(old(self)@, command_num, app_id).1,
    {
        if command_num == 0 {
            ReturnCode::Success
        } else if command_num == 1 {
            ReturnCode::Success
        } else if command_num == 2 {
            let c: usize = self.counter_for(app_id) + 1;
            self.set_counter(app_id, c);
            proof {
                assert(self@ =~= hello_command(old(self)@, command_num, app_id).0);
            }
            ReturnCode::SuccessWithValue { value: c }
        } else if command_num == 3 {
            let c: usize = self.counter_for(app_id) + 1;
            self.set_counter(app_id, c);
            match self.callback {
                Some(cb) => {
                    self.scheduled.push(ScheduledCall { cb, arg0: c, arg1: 0, arg2: 0 });
                },
                None => {},
            }
            proof {
                assert(self@ =~= hello_command(old(self)@, command_num, app_id).0);
            }
            ReturnCode::SuccessWithValue { value: c }
        } else {
            ReturnCode::NotSupported
        }
    }
}

} // verus!
