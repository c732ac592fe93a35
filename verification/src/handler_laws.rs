//! What the echo targets answer and what a worker's stream is good for, whatever
//! comes.
use vstd::prelude::*;

use crate::handler::{
    self, CheckReply, GrpcMode, GrpcModeError, Params, PostData, SocketAction, SocketEvent,
};
use crate::registration::{FieldMap, Registration};
use crate::sse::{self, SseAction, SseEvent};
use crate::text;
use crate::text_laws;

verus! {

/// A check is answered `ok!`, after exactly the seconds that are asked for if they
/// are a number of 64 bits, at once if they are anything else, and without a wait
/// if none is asked for.
pub proof fn checks_wait_as_long_as_asked(params: &Params, r: CheckReply)
    requires
        call_ensures(handler::check, (params,), r),
    ensures
        r.body@ == seq!['o', 'k', '!'],
        params.sleep is None ==> r.delay is None,
        params.sleep is Some ==> r.delay is Some,
        params.sleep is Some ==> ({
            let seconds = text::unsigned_value(params.sleep->0@, 18446744073709551615);
            &&& seconds is Some ==> r.delay->0 == seconds->0
            &&& seconds is None ==> r.delay->0 == 0
        }),
{
    reveal_strlit("ok!");
    assert("ok!"@ =~= seq!['o', 'k', '!']);
    if params.sleep is Some {
        text_laws::numbers_are_in_range(params.sleep->0@, 18446744073709551615);
    }
}

/// A ping is answered `pong`.
pub proof fn pings_are_answered(r: &'static str)
    requires
        call_ensures(handler::ping, (), r),
    ensures
        r@ == seq!['p', 'o', 'n', 'g'],
{
    reveal_strlit("pong");
    assert("pong"@ =~= seq!['p', 'o', 'n', 'g']);
}

/// What is posted comes back as it was, as newly made; and so does what is sent
/// over gRPC.
pub proof fn posts_and_messages_come_back(
    payload: PostData,
    r: (u16, PostData),
    message: String,
    echoed: String,
)
    requires
        call_ensures(handler::post_data, (payload,), r),
        call_ensures(handler::echo, (message,), echoed),
    ensures
        r.0 == 201,
        r.1.data@ == payload.data@,
        echoed@ == message@,
{
}

/// A text message of a socket comes back behind `Echo: `, all of it; a message that
/// closes the socket, an error, the end, and a reply that does not go through end
/// the echo; anything else is passed over.
pub proof fn sockets_echo_all_text(event: SocketEvent, r: SocketAction)
    requires
        call_ensures(handler::handle_socket, (event,), r),
    ensures
        event is Text <==> r is Reply,
        event is Text ==> r->Reply_0@ == seq!['E', 'c', 'h', 'o', ':', ' '] + event->Text_0@,
        r is Stop <==> event is Close || event is Failed || event is Ended || event
            == SocketEvent::Sent(false),
        r is Receive <==> event is Other || event == SocketEvent::Sent(true),
{
    reveal_strlit("Echo: ");
    assert("Echo: "@ =~= seq!['E', 'c', 'h', 'o', ':', ' ']);
}

/// A server listens on the given port of every interface: behind `0.0.0.0:` stands
/// the port, in decimal.
pub proof fn servers_listen_on_their_port(port: u16, r: String)
    requires
        call_ensures(handler::listen_address, (port,), r),
    ensures
        r@.take(8) == seq!['0', '.', '0', '.', '0', '.', '0', ':'],
        r@.skip(8) == text::decimal(port as nat),
        text::unsigned_value(r@.skip(8), 65535) == Some(port as int),
{
    reveal_strlit("0.0.0.0:");
    assert("0.0.0.0:"@ =~= seq!['0', '.', '0', '.', '0', '.', '0', ':']);
    assert(r@.take(8) =~= "0.0.0.0:"@);
    assert(r@.skip(8) =~= text::decimal(port as nat));
    text::decimal_reads_back(port as nat, 65535);
}

/// The gRPC program is a server on its port if it is told so and is given no URL,
/// and a client of its URL if it is given one and is not told to be a server; both
/// and neither are refused, each for its own reason.
pub proof fn grpc_runs_as_it_is_told(
    server: bool,
    listen: u16,
    url: Option<String>,
    r: Result<GrpcMode, GrpcModeError>,
)
    requires
        call_ensures(handler::grpc_mode, (server, listen, url), r),
    ensures
        r is Ok <==> server != (url is Some),
        r is Ok && server ==> r->Ok_0 == GrpcMode::Server(listen),
        r is Ok && !server ==> r->Ok_0 is Client && r->Ok_0->Client_0@ == url->0@,
        r is Err && server ==> r->Err_0 is ServerWithUrl,
        r is Err && !server ==> r->Err_0 is ClientWithoutUrl,
{
}

/// Each refusal has its own words.
pub proof fn refusals_are_told_apart(error: GrpcModeError, r: &'static str)
    requires
        call_ensures(GrpcModeError::message, (error,), r),
    ensures
        error is ServerWithUrl ==> r@ == "error: -s and -u cannot be used together"@,
        error is ClientWithoutUrl ==> r@
            == "error: -u is required when not running in server mode"@,
{
}

/// An event of the configuration stream is passed over only if its data are blank
/// or were no registration; all other data are decoded as they are, and every
/// registration is handed on as it is. The connection ends with the stream, and
/// fails with it.
pub proof fn streams_lose_no_registration(event: SseEvent, r: SseAction)
    requires
        call_ensures(sse::sse_turn, (event,), r),
    ensures
        r is Decode <==> event is Message && !text::blank(event->Message_0@),
        r is Decode ==> r->Decode_0@ == event->Message_0@,
        r is HandOn <==> event is Decoded && event->Decoded_0 is Some,
        r is HandOn ==> r->HandOn_0@ == event->Decoded_0->0@,
        r is Fail <==> event is Failed,
        r is Finish <==> event is Closed,
{
}

/// What is put into a set of fields is found there under its name, in place of
/// what was there; under every other name is found what was.
pub proof fn fields_are_found_as_they_were_put(
    fields: &mut FieldMap,
    name: String,
    value: String,
    other: Seq<char>,
)
    requires
        call_ensures(FieldMap::insert, (fields, name, value), ()),
    ensures
        final(fields)@.contains_key(name@),
        final(fields)@[name@] == value@,
        other != name@ ==> (final(fields)@.contains_key(other) <==> old(fields)@.contains_key(
            other,
        )),
        other != name@ ==> final(fields)@[other] == old(fields)@[other],
{
}

/// A field is found if and only if it is there, and then with its value; and a new
/// set has none.
pub proof fn fields_are_found(fresh: FieldMap, fields: &FieldMap, name: &str, r: Option<&String>)
    requires
        call_ensures(FieldMap::new, (), fresh),
        call_ensures(FieldMap::get, (fields, name), r),
    ensures
        !fresh@.contains_key(name@),
        r is Some <==> fields@.contains_key(name@),
        r is Some ==> r->0@ == fields@[name@],
{
}

/// The entries of a set of fields are its fields, each once.
pub proof fn entries_are_the_fields(fields: &FieldMap, r: &Vec<(String, String)>, name: Seq<char>)
    requires
        call_ensures(FieldMap::entries, (fields,), r),
    ensures
        fields@.contains_key(name) <==> exists|i: int|
            0 <= i < r@.len() && (#[trigger] r@[i]).0@ == name,
        forall|i: int|
            0 <= i < r@.len() && (#[trigger] r@[i]).0@ == name ==> r@[i].1@ == fields@[name],
        forall|i: int, j: int|
            0 <= i < j < r@.len() ==> (#[trigger] r@[i]).0@ != (#[trigger] r@[j]).0@,
{
    if fields@.contains_key(name) {
        let i = crate::registration::lemma_spelled_from(r@, name);
        assert(r@[i].0@ == name);
    }
    assert forall|i: int| 0 <= i < r@.len() && (#[trigger] r@[i]).0@ == name implies r@[i].1@
        == fields@[name] && fields@.contains_key(name) by {
        crate::registration::lemma_spelled_at(r@, i);
    }
}

/// Registrations are the same if and only if their ids are and their fields are;
/// what is seen of one is its own id and its own fields.
pub proof fn registrations_are_compared_whole(a: &Registration, b: &Registration, r: bool)
    requires
        call_ensures(Registration::same_registration, (a, b), r),
    ensures
        r <==> a.id@ == b.id@ && a.fields@ == b.fields@,
        a@.id == a.id@,
        a@.fields == a.fields@,
{
}

} // verus!
