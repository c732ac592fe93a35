//! What a worker does with the registrations that are pushed to it: when it
//! starts, restarts and stops a load test.
use vstd::prelude::*;

use crate::expire::{self, read_deadline};
use crate::load_test::{self, monitor_turn, MonitorAction};
use crate::registration::{self, FieldMap, Registration, RegistrationView};
use crate::text::{self, parse_unsigned};

verus! {

/// Where the requests go when a registration names no host.
pub const DEFAULT_HOST: &'static str = "http://127.0.0.1:8080/check";

/// The text of the connection count: the field `connection`, or its short name
/// `conn`.
pub open spec fn connection_text(fields: Map<Seq<char>, Seq<char>>) -> Option<Seq<char>> {
    match registration::field(fields, "connection"@) {
        Some(text) => Some(text),
        None => registration::field(fields, "conn"@),
    }
}

/// How many connections a registration asks for; none unless it gives a number.
pub open spec fn connection_count(fields: Map<Seq<char>, Seq<char>>) -> u64 {
    match connection_text(fields) {
        Some(text) => match text::unsigned_value(text, u64::MAX as int) {
            Some(n) => n as u64,
            None => 0,
        },
        None => 0,
    }
}

/// The request rate that a registration asks for, if it gives a number.
pub open spec fn asked_rate(fields: Map<Seq<char>, Seq<char>>) -> Option<usize> {
    match registration::field(fields, "rate"@) {
        Some(text) => match text::unsigned_value(text, usize::MAX as int) {
            Some(n) => Some(n as usize),
            None => None,
        },
        None => None,
    }
}

/// The text of the parameter `expire`; empty where there is none.
pub open spec fn expire_text(fields: Map<Seq<char>, Seq<char>>) -> Seq<char> {
    match registration::field(fields, "expire"@) {
        Some(text) => text,
        None => Seq::empty(),
    }
}

/// The host that a registration names, or the default one.
pub open spec fn target_host(fields: Map<Seq<char>, Seq<char>>) -> Seq<char> {
    match registration::field(fields, "host"@) {
        Some(text) => text,
        None => DEFAULT_HOST@,
    }
}

fn connection_field(fields: &FieldMap) -> (r: Option<&String>)
    ensures
        r is Some <==> connection_text(fields@) is Some,
        r matches Some(text) ==> connection_text(fields@) == Some(text@),
{
    match fields.get("connection") {
        Some(text) => Some(text),
        None => fields.get("conn"),
    }
}

/// How many connections a registration asks for.
pub fn connections(fields: &FieldMap) -> (r: u64)
    ensures
        r == connection_count(fields@),
{
    match connection_field(fields) {
        Some(text) => match parse_unsigned(text.as_str(), u64::MAX) {
            Some(n) => n,
            None => 0,
        },
        None => 0,
    }
}

/// The request rate that a registration asks for, if it gives a number.
pub fn rate(fields: &FieldMap) -> (r: Option<usize>)
    ensures
        r == asked_rate(fields@),
{
    match fields.get("rate") {
        Some(text) => match parse_unsigned(text.as_str(), usize::MAX as u64) {
            Some(n) => Some(n as usize),
            None => None,
        },
        None => None,
    }
}

/// The text of the parameter `expire`; empty where there is none.
pub fn expire_field(fields: &FieldMap) -> (r: String)
    ensures
        r@ == expire_text(fields@),
{
    match fields.get("expire") {
        Some(text) => text.clone(),
        None => String::new(),
    }
}

fn host(fields: &FieldMap) -> (r: String)
    ensures
        r@ == target_host(fields@),
{
    match fields.get("host") {
        Some(text) => text.clone(),
        None => DEFAULT_HOST.to_owned(),
    }
}

/// Whether two optional texts are the same.
fn same_field(a: Option<&String>, b: Option<&String>) -> (r: bool)
    ensures
        r == match (a, b) {
            (Some(s), Some(t)) => s@ == t@,
            (None, None) => true,
            _ => false,
        },
{
    match (a, b) {
        (Some(s), Some(t)) => *s == *t,
        (None, None) => true,
        _ => false,
    }
}

/// A load test to be run.
pub struct LoadTest {
    /// Where the requests go.
    pub host: String,
    /// How many connections send them.
    pub connections: u64,
    /// How many requests may start per second, and be under way at once.
    pub rate: usize,
    /// The Unix time at which the test ends.
    pub expire: i64,
}

/// What a load test is.
#[verifier::ext_equal]
pub struct LoadTestView {
    pub host: Seq<char>,
    pub connections: u64,
    pub rate: usize,
    pub expire: i64,
}

impl View for LoadTest {
    type V = LoadTestView;

    open spec fn view(&self) -> LoadTestView {
        LoadTestView {
            host: self.host@,
            connections: self.connections,
            rate: self.rate,
            expire: self.expire,
        }
    }
}

/// The test that a registration describes, if it ends at `expire`.
pub open spec fn described_test(fields: Map<Seq<char>, Seq<char>>, expire: i64) -> LoadTestView {
    LoadTestView {
        host: target_host(fields),
        connections: connection_count(fields),
        rate: match asked_rate(fields) {
            Some(n) => n,
            None => connection_count(fields) as usize,
        },
        expire,
    }
}

/// What a worker is to do about its load test.
pub struct WorkerAction {
    /// Whether to stop the test that is running, before anything else.
    pub stop: bool,
    /// The test to start, if one is to be started.
    pub start: Option<LoadTest>,
    /// The rate for the test that goes on running, if one was asked for.
    pub rate: Option<usize>,
}

/// What a worker does: whether it stops a test, which test it starts, and which
/// rate the running test gets.
#[verifier::ext_equal]
pub struct WorkerActionView {
    pub stop: bool,
    pub start: Option<LoadTestView>,
    pub rate: Option<usize>,
}

impl View for WorkerAction {
    type V = WorkerActionView;

    open spec fn view(&self) -> WorkerActionView {
        WorkerActionView {
            stop: self.stop,
            start: match self.start {
                Some(test) => Some(test@),
                None => None,
            },
            rate: self.rate,
        }
    }
}

/// What a worker is to do about the end of its load test.
pub enum EndAction {
    /// No test is running: wait for a registration.
    Idle,
    /// Wait this many seconds, or until a registration arrives, and look again.
    Sleep(u64),
    /// Let the test send no more.
    Finish,
}

/// A load test that is running: the registration that it is run for, and the
/// Unix time at which it ends.
struct Running {
    registration: Registration,
    end: i64,
}

/// What a worker remembers: the load test that is running, if any. A test runs
/// from its start until it is stopped, is replaced, or has come to its end.
pub struct Worker {
    test: Option<Running>,
}

/// A load test that is running.
#[verifier::ext_equal]
pub struct RunningView {
    pub registration: RegistrationView,
    pub end: i64,
}

/// What a worker remembers.
#[verifier::ext_equal]
pub struct WorkerView {
    pub test: Option<RunningView>,
}

impl View for Worker {
    type V = WorkerView;

    closed spec fn view(&self) -> WorkerView {
        WorkerView {
            test: match self.test {
                Some(test) => Some(
                    RunningView { registration: test.registration@, end: test.end },
                ),
                None => None,
            },
        }
    }
}

/// What holds of every worker: a test runs only for a registration that asks for
/// some connection.
pub open spec fn sound(worker: WorkerView) -> bool {
    worker.test matches Some(test) ==> connection_count(test.registration.fields) > 0
}

/// A worker without a load test.
pub open spec fn idle() -> WorkerView {
    WorkerView { test: None }
}

/// Whether a registration asks for no test at `now`: it wants no connection, or
/// gives no end, or has ended.
pub open spec fn asks_for_none(
    fields: Map<Seq<char>, Seq<char>>,
    expire: Option<i64>,
    now: i64,
) -> bool {
    ||| connection_count(fields) == 0
    ||| expire is None
    ||| expire->0 < now
}

/// Whether a test for `prev` has to be replaced by one for `next`.
pub open spec fn differs(prev: RegistrationView, next: RegistrationView) -> bool {
    ||| connection_text(prev.fields) != connection_text(next.fields)
    ||| registration::field(prev.fields, "host"@) != registration::field(
        next.fields,
        "host"@,
    )
}

/// Whether a test that ends at `end` has to make way at `now` for one that ends
/// at `expire`: its end has come, and the other's has not.
pub open spec fn is_over(end: i64, expire: i64, now: i64) -> bool {
    end <= now < expire
}

/// What a worker remembers and does after `update` has arrived at `now`, where
/// the test that the update describes would end at `expire`. The same
/// registration once more leaves the end of its test where it is.
pub open spec fn worker_step(
    worker: WorkerView,
    update: Option<RegistrationView>,
    expire: Option<i64>,
    now: i64,
) -> (WorkerView, WorkerActionView) {
    let running = worker.test is Some;
    if update is None || asks_for_none(update->0.fields, expire, now) {
        (idle(), WorkerActionView { stop: running, start: None, rate: None })
    } else {
        let reg = update->0;
        let newest = WorkerView { test: Some(RunningView { registration: reg, end: expire->0 }) };
        if !running || differs(worker.test->0.registration, reg) || is_over(
            worker.test->0.end,
            expire->0,
            now,
        ) {
            (
                newest,
                WorkerActionView {
                    stop: running,
                    start: Some(described_test(reg.fields, expire->0)),
                    rate: None,
                },
            )
        } else {
            (
                if worker.test->0.registration == reg {
                    worker
                } else {
                    newest
                },
                WorkerActionView { stop: false, start: None, rate: asked_rate(reg.fields) },
            )
        }
    }
}

/// The end of the test that `update` describes, when it arrives at `now`.
pub open spec fn update_deadline(update: Option<RegistrationView>, now: i64) -> Option<i64> {
    match update {
        Some(reg) => expire::deadline(
            expire::expire_time(expire_text(reg.fields)),
            expire_text(reg.fields),
            now,
        ),
        None => None,
    }
}

/// What a worker remembers and does when it looks at the end of its test at
/// `now`.
pub open spec fn end_step(worker: WorkerView, now: i64) -> (WorkerView, EndAction) {
    match worker.test {
        None => (worker, EndAction::Idle),
        Some(test) => match load_test::monitor_action(test.end, now) {
            MonitorAction::Stop => (idle(), EndAction::Finish),
            MonitorAction::Sleep(seconds) => (worker, EndAction::Sleep(seconds)),
        },
    }
}

impl Worker {
    #[verifier::type_invariant]
    spec fn is_sound(&self) -> bool {
        sound(self@)
    }

    /// A worker without a load test.
    pub fn new() -> (r: Worker)
        ensures
            r@ == idle(),
            sound(r@),
    {
        Worker { test: None }
    }

    /// Whether a load test is running.
    pub fn is_running(&self) -> (r: bool)
        ensures
            r == (self@.test is Some),
            sound(self@),
    {
        proof {
            use_type_invariant(self);
        }
        self.test.is_some()
    }

    /// Takes in an update that describes a test that would end at `expire`.
    pub fn step(
        &mut self,
        update: Option<Registration>,
        expire: Option<i64>,
        now: i64,
    ) -> (action: WorkerAction)
        ensures
            sound(old(self)@),
            sound(final(self)@),
            ({
                let update_view = match update {
                    Some(reg) => Some(reg@),
                    None => None,
                };
                (final(self)@, action@) == worker_step(old(self)@, update_view, expire, now)
            }),
    {
        proof {
            use_type_invariant(&*self);
        }
        let was_running = self.test.is_some();
        let reg = match update {
            Some(reg) => reg,
            None => {
                *self = Worker { test: None };
                return WorkerAction { stop: was_running, start: None, rate: None };
            },
        };
        let count = connections(&reg.fields);
        let end = match expire {
            Some(end) if count != 0 && end >= now => end,
            _ => {
                *self = Worker { test: None };
                return WorkerAction { stop: was_running, start: None, rate: None };
            },
        };
        let asked = rate(&reg.fields);
        let (restart, same) = match &self.test {
            None => (true, false),
            Some(test) => {
                let prev = &test.registration;
                let restart = !same_field(
                    connection_field(&prev.fields),
                    connection_field(&reg.fields),
                ) || !same_field(prev.fields.get("host"), reg.fields.get("host")) || (test.end
                    <= now && now < end);
                (restart, prev.same_registration(&reg))
            },
        };
        if !restart {
            if !same {
                *self = Worker { test: Some(Running { registration: reg, end }) };
            }
            return WorkerAction { stop: false, start: None, rate: asked };
        }
        let test = LoadTest {
            host: host(&reg.fields),
            connections: count,
            rate: match asked {
                Some(n) => n,
                None => count as usize,
            },
            expire: end,
        };
        *self = Worker { test: Some(Running { registration: reg, end }) };
        WorkerAction { stop: was_running, start: Some(test), rate: None }
    }

    /// Takes in an update that arrives at `now`.
    pub fn update(&mut self, update: Option<Registration>, now: i64) -> (action: WorkerAction)
        ensures
            sound(old(self)@),
            sound(final(self)@),
            ({
                let update_view = match update {
                    Some(reg) => Some(reg@),
                    None => None,
                };
                (final(self)@, action@) == worker_step(
                    old(self)@,
                    update_view,
                    update_deadline(update_view, now),
                    now,
                )
            }),
    {
        let expire: Option<i64> = match &update {
            Some(reg) => {
                let text = expire_field(&reg.fields);
                read_deadline(text.as_str(), now)
            },
            None => None,
        };
        self.step(update, expire, now)
    }

    /// Looks at `now` whether the test has come to its end. A test that has is
    /// forgotten, so that the next registration to ask for one starts it.
    pub fn watch_end(&mut self, now: i64) -> (action: EndAction)
        ensures
            sound(old(self)@),
            sound(final(self)@),
            (final(self)@, action) == end_step(old(self)@, now),
    {
        proof {
            use_type_invariant(&*self);
        }
        let end = match &self.test {
            None => {
                return EndAction::Idle;
            },
            Some(test) => test.end,
        };
        match monitor_turn(end, now) {
            MonitorAction::Stop => {
                *self = Worker { test: None };
                EndAction::Finish
            },
            MonitorAction::Sleep(seconds) => EndAction::Sleep(seconds),
        }
    }
}

} // verus!
