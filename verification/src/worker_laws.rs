//! What holds of a worker and its load tests as a whole.
use vstd::prelude::*;

use crate::calendar;
use crate::enroll;
use crate::expire;
use crate::registration::{self, FieldMap, Registration, RegistrationView};
use crate::text;
use crate::text_laws;
use crate::worker::{
    self, EndAction, LoadTest, LoadTestView, RunningView, Worker, WorkerAction, WorkerView,
};

verus! {

/// One where `b` holds, else zero.
pub open spec fn as_count(b: bool) -> int {
    if b {
        1
    } else {
        0
    }
}

/// Every update, and every look at the end, keeps a worker sound: a test runs
/// only for a registration that asks for some connection.
pub proof fn worker_stays_sound(
    worker: WorkerView,
    update: Option<RegistrationView>,
    expire: Option<i64>,
    now: i64,
)
    requires
        worker::sound(worker),
    ensures
        worker::sound(worker::worker_step(worker, update, expire, now).0),
        worker::sound(worker::end_step(worker, now).0),
{
}

/// A worker runs at most one test: the tests that were running, less the one
/// that is stopped or has ended, and the one that is started, are the tests that
/// are running after.
pub proof fn one_test_at_a_time(
    worker: WorkerView,
    update: Option<RegistrationView>,
    expire: Option<i64>,
    now: i64,
)
    ensures
        ({
            let (after, action) = worker::worker_step(worker, update, expire, now);
            &&& as_count(after.test is Some) == as_count(worker.test is Some) - as_count(
                action.stop,
            ) + as_count(action.start is Some)
            &&& action.stop ==> worker.test is Some
        }),
        ({
            let (after, action) = worker::end_step(worker, now);
            &&& as_count(after.test is Some) == as_count(worker.test is Some) - as_count(
                action is Finish,
            )
            &&& action is Finish ==> worker.test is Some
        }),
{
}

/// A test is started only if a registration asks for it, with the connections
/// and the end that it asks for: some connection, and an end that has not
/// passed.
pub proof fn only_asked_tests_start(
    worker: WorkerView,
    update: Option<RegistrationView>,
    expire: Option<i64>,
    now: i64,
)
    requires
        worker::worker_step(worker, update, expire, now).1.start is Some,
    ensures
        ({
            let test = worker::worker_step(worker, update, expire, now).1.start->0;
            &&& update is Some
            &&& expire == Some(test.expire)
            &&& test == worker::described_test(update->0.fields, test.expire)
            &&& test.connections > 0
            &&& test.expire >= now
        }),
{
}

/// An update that asks for no test leaves none running.
pub proof fn unasked_tests_stop(
    worker: WorkerView,
    update: Option<RegistrationView>,
    expire: Option<i64>,
    now: i64,
)
    requires
        update is None || worker::asks_for_none(update->0.fields, expire, now),
    ensures
        ({
            let (after, action) = worker::worker_step(worker, update, expire, now);
            &&& after == worker::idle()
            &&& action.stop == worker.test is Some
            &&& action.start is None
        }),
{
}

/// While a test has not come to its end, an update that asks for one replaces it
/// if and only if the connection count or the host is another; in every case a
/// test runs after it.
pub proof fn restarts_are_for_changes(
    worker: WorkerView,
    reg: RegistrationView,
    expire: Option<i64>,
    now: i64,
)
    requires
        worker.test is Some,
        now < worker.test->0.end,
        !worker::asks_for_none(reg.fields, expire, now),
    ensures
        ({
            let (after, action) = worker::worker_step(worker, Some(reg), expire, now);
            let fields = worker.test->0.registration.fields;
            let changed = worker::connection_text(fields) != worker::connection_text(reg.fields)
                || registration::field(fields, "host"@) != registration::field(
                reg.fields,
                "host"@,
            );
            &&& action.start is Some <==> changed
            &&& action.stop <==> changed
            &&& after.test is Some
        }),
{
}

/// The rate and the duration of a test can be changed while it runs: a
/// registration that is not the one it runs for, but has its connections and its
/// host, lets it go on with the end and the rate that the registration gives.
pub proof fn new_ends_and_rates_take_effect(
    worker: WorkerView,
    reg: RegistrationView,
    expire: Option<i64>,
    now: i64,
)
    requires
        worker.test is Some,
        now < worker.test->0.end,
        worker.test->0.registration != reg,
        !worker::differs(worker.test->0.registration, reg),
        !worker::asks_for_none(reg.fields, expire, now),
    ensures
        ({
            let (after, action) = worker::worker_step(worker, Some(reg), expire, now);
            &&& after.test == Some(RunningView { registration: reg, end: expire->0 })
            &&& !action.stop
            &&& action.start is None
            &&& action.rate == worker::asked_rate(reg.fields)
        }),
{
}

/// A registration that comes a second time before its test ends changes nothing:
/// no test is stopped or started, the end stays where it is, even if the
/// registration gives it as a duration, and the rate is the one that the test
/// was started with.
pub proof fn repeats_change_nothing(
    worker: WorkerView,
    reg: RegistrationView,
    expire: Option<i64>,
    now: i64,
    later_expire: Option<i64>,
    later: i64,
)
    requires
        !worker::asks_for_none(reg.fields, expire, now),
        !worker::asks_for_none(reg.fields, later_expire, later),
        later < worker::worker_step(worker, Some(reg), expire, now).0.test->0.end,
    ensures
        ({
            let after = worker::worker_step(worker, Some(reg), expire, now).0;
            let (again, action) = worker::worker_step(after, Some(reg), later_expire, later);
            &&& again == after
            &&& !action.stop
            &&& action.start is None
            &&& action.rate matches Some(rate) ==> rate == worker::described_test(
                reg.fields,
                expire->0,
            ).rate
        }),
{
}

/// A test is let go on until its end, and no longer: until then the worker waits
/// out the seconds that are left.
pub proof fn tests_end_on_time(worker: WorkerView, now: i64)
    requires
        worker.test is Some,
    ensures
        ({
            let (after, action) = worker::end_step(worker, now);
            let end = worker.test->0.end;
            &&& now >= end ==> action is Finish && after == worker::idle()
            &&& now < end ==> action is Sleep && action->0 == end - now && after == worker
        }),
{
}

/// A test that has come to its end can be run again: the next registration to
/// ask for a test starts it, whatever the test before was.
pub proof fn ended_tests_run_again(
    worker: WorkerView,
    end: i64,
    reg: RegistrationView,
    expire: Option<i64>,
    now: i64,
)
    requires
        worker::end_step(worker, end).1 is Finish,
        !worker::asks_for_none(reg.fields, expire, now),
    ensures
        ({
            let ended = worker::end_step(worker, end).0;
            let (after, action) = worker::worker_step(ended, Some(reg), expire, now);
            &&& action.start == Some(worker::described_test(reg.fields, expire->0))
            &&& !action.stop
            &&& after.test == Some(RunningView { registration: reg, end: expire->0 })
        }),
{
}

/// The same holds before the worker has looked at the end of the test: one whose
/// end has come is replaced by the test that a registration with a later end
/// describes, whatever the two registrations say.
pub proof fn overdue_tests_make_way(
    worker: WorkerView,
    reg: RegistrationView,
    expire: Option<i64>,
    now: i64,
)
    requires
        worker.test is Some,
        worker.test->0.end <= now,
        worker::connection_count(reg.fields) > 0,
        expire is Some,
        now < expire->0,
    ensures
        ({
            let (after, action) = worker::worker_step(worker, Some(reg), expire, now);
            &&& action.stop
            &&& action.start == Some(worker::described_test(reg.fields, expire->0))
            &&& after.test == Some(RunningView { registration: reg, end: expire->0 })
        }),
{
}

/// The registration that a worker finds before any is set asks for no connection,
/// and for an end at the beginning of the year 2000 in Beijing; whatever the
/// worker does and whenever it finds it, no test runs after.
pub proof fn the_first_registration_runs_nothing(worker: WorkerView, now: i64)
    ensures
        ({
            let first = enroll::initial_state().registrations["rwrk"@];
            let expire = worker::update_deadline(Some(first), now);
            let (after, action) = worker::worker_step(worker, Some(first), expire, now);
            &&& worker::connection_count(first.fields) == 0
            &&& expire == Some(946656000i64)
            &&& after == worker::idle()
            &&& action.start is None
        }),
{
    reveal_strlit("connection");
    reveal_strlit("expire");
    reveal_strlit("0");
    reveal_strlit("2000.1.1-00:00");
    assert("connection"@.len() != "expire"@.len());
    reveal_with_fuel(text::digits_value, 5);
    let one = seq!['1'];
    let zeros = seq!['0', '0'];
    let year = seq!['2', '0', '0', '0'];
    assert(one.drop_last() =~= Seq::<char>::empty());
    assert(zeros.drop_last() =~= seq!['0']);
    assert(seq!['0'].drop_last() =~= Seq::<char>::empty());
    assert(year.drop_last() =~= seq!['2', '0', '0']);
    assert(year.drop_last().drop_last() =~= seq!['2', '0']);
    assert(year.drop_last().drop_last().drop_last() =~= seq!['2']);
    assert(seq!['2'].drop_last() =~= Seq::<char>::empty());
    assert("0"@ =~= seq!['0']);
    assert("2000.1.1-00:00"@ =~= calendar::spelled(year, one, one, zeros, zeros));
    calendar::lemma_minute_text(year, one, one, zeros, zeros);
    expire::end_times_are_read_as_written("2000.1.1-00:00"@);
}

/// The text of the field `connection` of a registration, or of `conn` where it has
/// no such field.
pub open spec fn connections_named(fields: Map<Seq<char>, Seq<char>>) -> Option<Seq<char>> {
    if fields.contains_key("connection"@) {
        Some(fields["connection"@])
    } else if fields.contains_key("conn"@) {
        Some(fields["conn"@])
    } else {
        None
    }
}

/// Whether a registration asks for `n` connections: its text writes that number,
/// or `n` is zero and there is no text that writes a number of 64 bits.
pub open spec fn asks_for(fields: Map<Seq<char>, Seq<char>>, n: int) -> bool {
    let named = connections_named(fields);
    if named is Some && text::unsigned_value(named->0, 18446744073709551615) is Some {
        text::unsigned_value(named->0, 18446744073709551615) == Some(n)
    } else {
        n == 0
    }
}

/// The end that the field `expire` of a registration gives at `now`: the minute in
/// Beijing that it writes; what chrono reads otherwise; or so many seconds from
/// `now`.
pub open spec fn end_given(fields: Map<Seq<char>, Seq<char>>, now: i64) -> Option<int> {
    if !fields.contains_key("expire"@) {
        None
    } else {
        let s = fields["expire"@];
        let minute = calendar::minute_text(s);
        let civil = expire::civil_seconds(s, "%Y.%m.%d-%H:%M"@);
        let seconds = text::unsigned_value(s, 9223372036854775807);
        if minute is Some {
            if calendar::is_minute(minute->0) {
                Some(calendar::civil_time(minute->0) - 28800)
            } else {
                None
            }
        } else if s.contains('.') && s.contains('-') && s.contains(':') {
            if civil is Some && -8334601200000 <= civil->0 <= 8210266876799 {
                Some(civil->0 - 28800)
            } else {
                None
            }
        } else if seconds is Some && now + seconds->0 <= 9223372036854775807 {
            Some(now + seconds->0)
        } else {
            None
        }
    }
}

/// Whether a test is the one that a registration asks for: it goes to the text of
/// the field `host`, or to the default host where there is no such field; it has
/// the connections that are asked for; and it has the rate that the field `rate`
/// writes, or as many as its connections where that field writes no number.
pub open spec fn is_as_asked(test: LoadTestView, fields: Map<Seq<char>, Seq<char>>) -> bool {
    let asked = if fields.contains_key("rate"@) {
        text::unsigned_value(fields["rate"@], usize::MAX as int)
    } else {
        None
    };
    &&& fields.contains_key("host"@) ==> test.host == fields["host"@]
    &&& !fields.contains_key("host"@) ==> test.host == "http://127.0.0.1:8080/check"@
    &&& asks_for(fields, test.connections as int)
    &&& asked is Some ==> test.rate == asked->0
    &&& asked is None && test.connections <= usize::MAX ==> test.rate == test.connections
}

/// Whether two registrations name the same connections and the same host.
pub open spec fn same_target(a: Map<Seq<char>, Seq<char>>, b: Map<Seq<char>, Seq<char>>) -> bool {
    &&& connections_named(a) == connections_named(b)
    &&& a.contains_key("host"@) == b.contains_key("host"@)
    &&& a.contains_key("host"@) ==> a["host"@] == b["host"@]
}

/// The fields of a registration are read under their own names.
pub proof fn fields_are_read_by_name(
    fields: &FieldMap,
    connections: u64,
    rate: Option<usize>,
    end: String,
)
    requires
        call_ensures(worker::connections, (fields,), connections),
        call_ensures(worker::rate, (fields,), rate),
        call_ensures(worker::expire_field, (fields,), end),
    ensures
        asks_for(fields@, connections as int),
        rate is Some <==> fields@.contains_key("rate"@) && text::unsigned_value(
            fields@["rate"@],
            usize::MAX as int,
        ) is Some,
        rate is Some ==> text::unsigned_value(fields@["rate"@], usize::MAX as int) == Some(
            rate->0 as int,
        ),
        fields@.contains_key("expire"@) ==> end@ == fields@["expire"@],
        !fields@.contains_key("expire"@) ==> end@.len() == 0,
{
    lemma_numbers(fields@);
}

/// The numbers of a registration fit their types.
proof fn lemma_numbers(fields: Map<Seq<char>, Seq<char>>)
    ensures
        asks_for(fields, worker::connection_count(fields) as int),
        forall|n: int| #[trigger]
            asks_for(fields, n) ==> n == worker::connection_count(fields),
        worker::asked_rate(fields) is Some <==> fields.contains_key("rate"@)
            && text::unsigned_value(fields["rate"@], usize::MAX as int) is Some,
        worker::asked_rate(fields) is Some ==> text::unsigned_value(
            fields["rate"@],
            usize::MAX as int,
        ) == Some(worker::asked_rate(fields)->0 as int),
{
    let named = connections_named(fields);
    if named is Some {
        text_laws::numbers_are_in_range(named->0, 18446744073709551615);
    }
    if fields.contains_key("rate"@) {
        text_laws::numbers_are_in_range(fields["rate"@], usize::MAX as int);
    }
}

/// The end that an update gives is the one that its field gives.
proof fn lemma_end(reg: RegistrationView, now: i64)
    ensures
        ({
            let end = worker::update_deadline(Some(reg), now);
            &&& end is Some <==> end_given(reg.fields, now) is Some
            &&& end is Some ==> end->0 == end_given(reg.fields, now)->0
        }),
{
    let s = worker::expire_text(reg.fields);
    calendar::lemma_has_dot(s);
    expire::lemma_numbers_have_no_dot(s, 9223372036854775807);
    expire::end_times_are_read_as_written(s);
    if let Some(at) = calendar::minute_text(s) {
        if calendar::is_minute(at) {
            calendar::lemma_civil_range(at);
        }
    }
    text_laws::numbers_are_in_range(s, 9223372036854775807);
    if !reg.fields.contains_key("expire"@) {
        assert(s.len() == 0);
        assert(!s.contains('.'));
        assert(calendar::minute_text(s) is None);
    }
}

/// What a registration with a given end makes of a worker, in terms of its fields.
pub open spec fn is_right_step(
    before: WorkerView,
    reg: RegistrationView,
    end: Option<int>,
    now: i64,
    after: WorkerView,
    stop: bool,
    start: Option<LoadTestView>,
    rate: Option<usize>,
) -> bool {
    let asked_rate = if reg.fields.contains_key("rate"@) {
        text::unsigned_value(reg.fields["rate"@], usize::MAX as int)
    } else {
        None
    };
    if asks_for(reg.fields, 0) || end is None || end->0 < now {
        // It asks for no test: one that runs is stopped, and none runs after.
        &&& stop <==> before.test is Some
        &&& start is None
        &&& rate is None
        &&& after.test is None
    } else if before.test is None || !same_target(before.test->0.registration.fields, reg.fields)
        || before.test->0.end <= now < end->0 {
        // No test runs, or another one, or one that is over: the one that is asked
        // for is started, in place of any other, and runs until its end.
        &&& stop <==> before.test is Some
        &&& start is Some
        &&& is_as_asked(start->0, reg.fields)
        &&& start->0.expire == end->0
        &&& rate is None
        &&& after.test is Some
        &&& after.test->0.registration == reg
        &&& after.test->0.end == end->0
    } else {
        // The test goes on, with the rate and the end that are asked for; where
        // nothing new is asked for, with the end that it had.
        &&& !stop
        &&& start is None
        &&& rate is Some <==> asked_rate is Some
        &&& rate is Some ==> rate->0 == asked_rate->0
        &&& after.test is Some
        &&& after.test->0.registration == reg
        &&& before.test->0.registration == reg ==> after.test->0.end == before.test->0.end
        &&& before.test->0.registration != reg ==> after.test->0.end == end->0
    }
}

proof fn lemma_step(before: WorkerView, reg: RegistrationView, end: Option<i64>, now: i64)
    ensures
        ({
            let (after, action) = worker::worker_step(before, Some(reg), end, now);
            let given = match end {
                Some(e) => Some(e as int),
                None => None,
            };
            is_right_step(
                before,
                reg,
                given,
                now,
                after,
                action.stop,
                action.start,
                action.rate,
            )
        }),
{
    lemma_numbers(reg.fields);
}

/// A registration that arrives is answered as its fields ask, at the time that it
/// arrives: nothing runs without connections or after the end, wherever it lies;
/// a test is started or replaced for other connections, another host, or because
/// the one before is over; it goes to the host, with the connections, at the rate
/// and until the end that the fields give; and otherwise it goes on with the rate
/// and the end that the fields give.
pub proof fn registrations_are_answered_as_they_ask(
    worker: &mut Worker,
    reg: Registration,
    now: i64,
    action: WorkerAction,
)
    requires
        call_ensures(Worker::update, (worker, Some(reg), now), action),
    ensures
        is_right_step(
            old(worker)@,
            reg@,
            end_given(reg@.fields, now),
            now,
            final(worker)@,
            action.stop,
            match action.start {
                Some(test) => Some(test@),
                None => None,
            },
            action.rate,
        ),
{
    let end = worker::update_deadline(Some(reg@), now);
    lemma_end(reg@, now);
    lemma_step(old(worker)@, reg@, end, now);
}

/// The same holds where the end is given apart from the fields.
pub proof fn steps_take_the_end_that_is_given(
    worker: &mut Worker,
    reg: Registration,
    end: Option<i64>,
    now: i64,
    action: WorkerAction,
)
    requires
        call_ensures(Worker::step, (worker, Some(reg), end, now), action),
    ensures
        is_right_step(
            old(worker)@,
            reg@,
            match end {
                Some(e) => Some(e as int),
                None => None,
            },
            now,
            final(worker)@,
            action.stop,
            match action.start {
                Some(test) => Some(test@),
                None => None,
            },
            action.rate,
        ),
{
    lemma_step(old(worker)@, reg@, end, now);
}

/// A test that an update starts goes to exactly the text of the field `host`,
/// whatever it is, and to the default host only where there is no such field.
pub proof fn tests_go_to_the_host_that_is_named(
    worker: &mut Worker,
    reg: Registration,
    now: i64,
    action: WorkerAction,
)
    requires
        call_ensures(Worker::update, (worker, Some(reg), now), action),
        action.start is Some,
    ensures
        reg@.fields.contains_key("host"@) ==> action.start->0.host@ == reg@.fields["host"@],
        !reg@.fields.contains_key("host"@) ==> action.start->0.host@
            == "http://127.0.0.1:8080/check"@,
{
    registrations_are_answered_as_they_ask(worker, reg, now, action);
}

/// A test that an update starts has the connections that the field `connection`
/// writes, or `conn` where there is no such field, which are more than none; and
/// the rate that the field `rate` writes, or as many as its connections.
pub proof fn tests_have_the_size_that_is_asked_for(
    worker: &mut Worker,
    reg: Registration,
    now: i64,
    action: WorkerAction,
)
    requires
        call_ensures(Worker::update, (worker, Some(reg), now), action),
        action.start is Some,
    ensures
        ({
            let fields = reg@.fields;
            let test = action.start->0;
            let counts = if fields.contains_key("connection"@) {
                fields["connection"@]
            } else {
                fields["conn"@]
            };
            let rate = text::unsigned_value(fields["rate"@], usize::MAX as int);
            &&& fields.contains_key("connection"@) || fields.contains_key("conn"@)
            &&& text::unsigned_value(counts, 18446744073709551615) == Some(test.connections as int)
            &&& test.connections > 0
            &&& fields.contains_key("rate"@) && rate is Some ==> test.rate == rate->0
            &&& !(fields.contains_key("rate"@) && rate is Some) && test.connections <= usize::MAX
                ==> test.rate == test.connections
        }),
{
    registrations_are_answered_as_they_ask(worker, reg, now, action);
    lemma_numbers(reg@.fields);
}

/// A worker without a test starts one for every registration that asks for some
/// connection and gives an end that has not passed, and for no other.
pub proof fn idle_workers_start_what_is_asked_for(
    worker: &mut Worker,
    reg: Registration,
    now: i64,
    action: WorkerAction,
)
    requires
        call_ensures(Worker::update, (worker, Some(reg), now), action),
        old(worker)@.test is None,
    ensures
        ({
            let fields = reg@.fields;
            let counts = if fields.contains_key("connection"@) {
                fields["connection"@]
            } else {
                fields["conn"@]
            };
            let count = text::unsigned_value(counts, 18446744073709551615);
            let end = end_given(fields, now);
            &&& action.start is Some <==> (fields.contains_key("connection"@)
                || fields.contains_key("conn"@)) && count is Some && count->0 > 0 && end is Some
                && end->0 >= now
            &&& action.start is Some ==> action.start->0.expire == end->0
            &&& !action.stop
        }),
{
    registrations_are_answered_as_they_ask(worker, reg, now, action);
    lemma_numbers(reg@.fields);
    if connections_named(reg@.fields) is Some {
        text_laws::numbers_are_in_range(
            connections_named(reg@.fields)->0,
            18446744073709551615,
        );
    }
}

/// A test that an update starts ends at exactly the minute in Beijing that the
/// registration writes, however far ahead it is.
pub proof fn tests_end_at_the_minute_that_is_written(
    worker: &mut Worker,
    reg: Registration,
    now: i64,
    action: WorkerAction,
)
    requires
        call_ensures(Worker::update, (worker, Some(reg), now), action),
        action.start is Some,
        calendar::minute_text(reg@.fields["expire"@]) is Some,
        reg@.fields.contains_key("expire"@),
    ensures
        calendar::is_minute(calendar::minute_text(reg@.fields["expire"@])->0),
        action.start->0.expire == calendar::civil_time(
            calendar::minute_text(reg@.fields["expire"@])->0,
        ) - 28800,
        final(worker)@.test is Some,
        final(worker)@.test->0.end == action.start->0.expire,
{
    registrations_are_answered_as_they_ask(worker, reg, now, action);
}

/// Where there is no registration any more, a test that runs is stopped, and none
/// runs after.
pub proof fn no_registration_means_no_test(
    worker: &mut Worker,
    now: i64,
    action: WorkerAction,
)
    requires
        call_ensures(Worker::update, (worker, None::<Registration>, now), action),
    ensures
        action.stop <==> old(worker)@.test is Some,
        action.start is None,
        action.rate is None,
        final(worker)@.test is None,
{
}

/// The same holds where an end is given apart from the registration.
pub proof fn no_registration_has_no_end(
    worker: &mut Worker,
    end: Option<i64>,
    now: i64,
    action: WorkerAction,
)
    requires
        call_ensures(Worker::step, (worker, None::<Registration>, end, now), action),
    ensures
        action.stop <==> old(worker)@.test is Some,
        action.start is None,
        action.rate is None,
        final(worker)@.test is None,
{
}

/// A test runs until its end has come, and not a second longer than it takes to
/// look: until then the worker is to look again after the seconds that are left.
pub proof fn ends_are_watched(worker: &mut Worker, now: i64, action: EndAction)
    requires
        call_ensures(Worker::watch_end, (worker, now), action),
    ensures
        ({
            let before = old(worker)@;
            let after = final(worker)@;
            &&& action is Idle <==> before.test is None
            &&& action is Finish <==> before.test is Some && before.test->0.end <= now
            &&& action is Sleep <==> before.test is Some && before.test->0.end > now
            &&& action is Sleep ==> action->0 == before.test->0.end - now
            &&& action is Finish ==> after.test is None
            &&& !(action is Finish) ==> after == before
        }),
{
}

/// A worker begins without a test, and says whether one runs.
pub proof fn workers_begin_idle(fresh: Worker, worker: &Worker, running: bool)
    requires
        call_ensures(Worker::new, (), fresh),
        call_ensures(Worker::is_running, (worker,), running),
    ensures
        fresh@.test is None,
        running <==> worker@.test is Some,
{
}

/// What is seen of a test is its own host, connections, rate and end.
pub proof fn tests_are_seen_whole(test: LoadTest)
    ensures
        test@.host == test.host@,
        test@.connections == test.connections,
        test@.rate == test.rate,
        test@.expire == test.expire,
{
}

} // verus!
