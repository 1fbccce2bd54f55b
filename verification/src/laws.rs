//! What holds of the scanner and of the connection machine, on every input.

use vstd::prelude::*;
use vstd::utf8::{decode_utf8, valid_utf8};
use crate::bytes::{
    lemma_line_start_unique, lemma_position, lemma_position_absent, lemma_position_found,
    lemma_spaces_end_unique, line_start_at, spaces_end_at, COLON, CR, LF, SPACE,
};
use crate::connection::{closed, transition, ActionModel, EventModel, State};
use crate::error::{Error, ErrorKind};
use crate::host::{
    host_from, is_host_name, lemma_host_from, lemma_search_resumes, lower, strip_port, HostModel,
};
use crate::resolve::{server_name_valid, Address, TargetModel, UPSTREAM_PORT};
use crate::scanner::{
    delimiters, lemma_delimiters, name_range, scan_at, slice_of, value_range, ScanModel,
};

verus! {

/// A header field as a client writes it: a name, a value, and the number
/// of spaces that the client puts between the colon and the value. That
/// number may be zero.
pub struct Line {
    pub name: Seq<u8>,
    pub spaces: nat,
    pub value: Seq<u8>,
}

/// So many spaces in a row.
pub open spec fn spaces(n: nat) -> Seq<u8> {
    Seq::new(n, |i: int| SPACE)
}

impl Line {
    /// The bytes of the field on the wire: the name, a colon, the spaces,
    /// the value, a carriage return and a line feed.
    pub open spec fn encoded(self) -> Seq<u8> {
        self.name + seq![COLON] + spaces(self.spaces) + self.value + seq![CR, LF]
    }

    /// Neither name nor value holds a byte that would end it early, and the
    /// value does not begin with a space.
    pub open spec fn framed(self) -> bool {
        &&& forall|i: int|
            0 <= i < self.name.len() ==> self.name[i] != COLON && self.name[i] != CR
                && self.name[i] != LF
        &&& forall|i: int| 0 <= i < self.value.len() ==> self.value[i] != CR && self.value[i] != LF
        &&& self.value.len() > 0 ==> self.value[0] != SPACE
    }

    /// Name and value are text.
    pub open spec fn is_text(self) -> bool {
        valid_utf8(self.name) && valid_utf8(self.value)
    }

    /// The field is framed, and its name and value are text.
    pub open spec fn well_formed(self) -> bool {
        self.framed() && self.is_text()
    }
}

/// The bytes of a header block: its fields, one behind the other.
pub open spec fn block(lines: Seq<Line>) -> Seq<u8>
    decreases lines.len(),
{
    if lines.len() == 0 {
        Seq::empty()
    } else {
        lines.first().encoded() + block(lines.drop_first())
    }
}

/// Where the scanner finds a field that was written at `at`: the name from
/// there to the colon, the value from behind the colon and its spaces to
/// the carriage return, the end behind the line feed.
pub open spec fn as_written(at: int, line: Line) -> ScanModel {
    ScanModel::Field {
        name: (at, at + line.name.len()),
        value: (
            at + line.name.len() + 1 + line.spaces,
            at + line.name.len() + 1 + line.spaces + line.value.len(),
        ),
        end: at + line.encoded().len(),
    }
}

proof fn lemma_field_found(front: Seq<u8>, line: Line, rest: Seq<u8>)
    requires
        line.framed(),
    ensures
        ({
            let s = front + line.encoded() + rest;
            let colon = front.len() as int + line.name.len();
            let cr = colon + 1 + line.spaces + line.value.len();
            &&& delimiters(s, front.len() as int) == Some((colon, cr, cr + 1))
            &&& name_range(s, front.len() as int, colon) == (front.len() as int, colon)
            &&& value_range(s, colon, cr) == (colon + 1 + line.spaces, cr)
            &&& slice_of(s, (front.len() as int, colon)) == line.name
            &&& slice_of(s, (colon + 1 + line.spaces, cr)) == line.value
        }),
{
    let s = front + line.encoded() + rest;
    let start = front.len() as int;
    let colon = start + line.name.len();
    let value = colon + 1 + line.spaces;
    let cr = value + line.value.len();
    let lf = cr + 1;
    assert forall|j: int| start <= j < colon implies s[j] == line.name[j - start] by {}
    assert forall|j: int| colon + 1 <= j < value implies s[j] == SPACE by {
        assert(s[j] == spaces(line.spaces)[j - colon - 1]);
    }
    assert forall|j: int| value <= j < cr implies s[j] == line.value[j - value] by {}
    assert(s[cr] == CR);
    assert(spaces_end_at(s, colon + 1, cr, value));
    lemma_spaces_end_unique(s, colon + 1, cr, value);
    lemma_position_found(s, start, COLON, colon);
    lemma_position_found(s, colon + 1, CR, cr);
    lemma_position_found(s, cr + 1, LF, lf);
    assert(line_start_at(s, start, colon, start));
    lemma_line_start_unique(s, start, colon, start);
    assert(slice_of(s, (start, colon)) =~= line.name);
    assert(slice_of(s, (value, cr)) =~= line.value);
}

/// A well-formed field that stands at the cursor is scanned as written,
/// with any number of spaces behind its colon or none: its name and value
/// are found where they were put, whole, and the cursor moves behind its
/// line feed.
pub proof fn law_field_scanned_as_written(front: Seq<u8>, line: Line, rest: Seq<u8>)
    requires
        line.well_formed(),
    ensures
        scan_at(front + line.encoded() + rest, front.len() as int) == as_written(
            front.len() as int,
            line,
        ),
        as_written(front.len() as int, line).name_in(front + line.encoded() + rest) == line.name,
        as_written(front.len() as int, line).value_in(front + line.encoded() + rest)
            == line.value,
{
    lemma_field_found(front, line, rest);
}

/// A field whose name or value is not text is an error, wherever in the
/// name or the value the bytes stand that are no text.
pub proof fn law_field_that_is_not_text(front: Seq<u8>, line: Line, rest: Seq<u8>)
    requires
        line.framed(),
        !line.is_text(),
    ensures
        scan_at(front + line.encoded() + rest, front.len() as int) == ScanModel::Error(
            Error::NonText,
        ),
{
    lemma_field_found(front, line, rest);
}

proof fn lemma_others_passed(front: Seq<u8>, others: Seq<Line>, rest: Seq<u8>)
    requires
        forall|i: int|
            0 <= i < others.len() ==> (#[trigger] others[i]).well_formed() && !is_host_name(
                others[i].name,
            ),
    ensures
        host_from(front + block(others) + rest, front.len() as int) == host_from(
            front + block(others) + rest,
            (front + block(others)).len() as int,
        ),
    decreases others.len(),
{
    let s = front + block(others) + rest;
    if others.len() == 0 {
        assert(front + block(others) =~= front);
    } else {
        let line = others.first();
        let tail = others.drop_first();
        assert(line.well_formed() && !is_host_name(line.name)) by {
            assert(others[0] == line);
        }
        assert forall|i: int| 0 <= i < tail.len() implies (#[trigger] tail[i]).well_formed()
            && !is_host_name(tail[i].name) by {
            assert(tail[i] == others[i + 1]);
        }
        let behind = block(tail) + rest;
        assert(s =~= front + line.encoded() + behind);
        law_field_scanned_as_written(front, line, behind);
        let next = front + line.encoded();
        lemma_others_passed(next, tail, rest);
        assert(s =~= next + block(tail) + rest);
        assert(front + block(others) =~= next + block(tail));
    }
}

/// In a block of well-formed fields the first `Host` field decides, however
/// many other fields stand in front of it and whatever follows it. The
/// host is the field's value up to its first colon, and the bytes in front
/// of the cursor, those that are replayed, are the fields up to and with
/// the `Host` field, byte for byte.
pub proof fn law_host_found(others: Seq<Line>, host: Line, rest: Seq<u8>)
    requires
        forall|i: int|
            0 <= i < others.len() ==> (#[trigger] others[i]).well_formed() && !is_host_name(
                others[i].name,
            ),
        host.well_formed(),
        is_host_name(host.name),
    ensures
        host_from(block(others) + host.encoded() + rest, 0) == (HostModel::Found {
            host: strip_port(host.value),
            end: (block(others) + host.encoded()).len() as int,
        }),
        (block(others) + host.encoded() + rest).take((block(others) + host.encoded()).len() as int)
            == block(others) + host.encoded(),
{
    let s = block(others) + host.encoded() + rest;
    let empty = Seq::<u8>::empty();
    lemma_others_passed(empty, others, host.encoded() + rest);
    assert(empty + block(others) + (host.encoded() + rest) =~= s);
    assert(empty + block(others) =~= block(others));
    law_field_scanned_as_written(block(others), host, rest);
    assert((block(others) + host.encoded() + rest).take(
        (block(others) + host.encoded()).len() as int,
    ) =~= block(others) + host.encoded());
}

/// A field that is not text ends the search, however many well-formed
/// fields stand in front of it and whatever follows it: a `Host` field
/// behind it is not looked at.
pub proof fn law_non_text_ends_the_search(others: Seq<Line>, bad: Line, rest: Seq<u8>)
    requires
        forall|i: int|
            0 <= i < others.len() ==> (#[trigger] others[i]).well_formed() && !is_host_name(
                others[i].name,
            ),
        bad.framed(),
        !bad.is_text(),
    ensures
        host_from(block(others) + bad.encoded() + rest, 0) == (HostModel::Error {
            error: Error::NonText,
            cursor: block(others).len() as int,
        }),
        transition(
            State::initial(),
            EventModel::ClientData(block(others) + bad.encoded() + rest),
        ) == closed(Some(Error::NonText)),
{
    let s = block(others) + bad.encoded() + rest;
    let empty = Seq::<u8>::empty();
    lemma_others_passed(empty, others, bad.encoded() + rest);
    assert(empty + block(others) + (bad.encoded() + rest) =~= s);
    assert(empty + block(others) =~= block(others));
    law_field_that_is_not_text(block(others), bad, rest);
    lemma_error_closes(s, block(others).len() as int);
}

proof fn lemma_error_closes(request: Seq<u8>, cursor: int)
    requires
        host_from(request, 0) == (HostModel::Error { error: Error::NonText, cursor }),
    ensures
        transition(State::initial(), EventModel::ClientData(request)) == closed(
            Some(Error::NonText),
        ),
{
    assert(Seq::<u8>::empty() + request =~= request);
}

/// A field's name holds neither a colon nor a line feed and ends in front
/// of the field's colon; its value holds no carriage return, does not begin
/// with a space, and ends in front of the field's carriage return; nothing
/// but spaces stands between the colon and the value; and the field ends
/// behind its line feed.
pub proof fn law_field_excludes_its_delimiters(s: Seq<u8>, cursor: int)
    requires
        0 <= cursor <= s.len(),
    ensures
        scan_at(s, cursor) matches ScanModel::Field { name, value, end } ==> {
            &&& cursor <= name.0 <= name.1 < value.1 < end - 1 < s.len()
            &&& name.1 < value.0 <= value.1
            &&& s[name.1] == COLON
            &&& s[value.1] == CR
            &&& s[end - 1] == LF
            &&& forall|i: int| name.0 <= i < name.1 ==> s[i] != COLON && s[i] != LF
            &&& forall|i: int| value.0 <= i < value.1 ==> s[i] != CR
            &&& forall|i: int| name.1 < i < value.0 ==> s[i] == SPACE
            &&& value.0 < value.1 ==> s[value.0] != SPACE
        },
{
    lemma_delimiters(s, cursor);
}

/// Whether a name is `host` does not depend on the case of its letters.
pub proof fn law_host_name_ignores_case(a: Seq<u8>, b: Seq<u8>)
    requires
        a.len() == b.len(),
        forall|i: int| 0 <= i < a.len() ==> lower(a[i]) == lower(b[i]),
    ensures
        is_host_name(a) == is_host_name(b),
{
}

/// The host never holds a colon, and so never a port.
pub proof fn law_host_has_no_port(value: Seq<u8>)
    ensures
        forall|i: int| 0 <= i < strip_port(value).len() ==> strip_port(value)[i] != COLON,
        strip_port(value).is_prefix_of(value),
{
    lemma_position(value, 0, COLON);
}

/// The course of a connection: the state after a sequence of events, and
/// the actions that were asked for on the way, one for each event.
pub open spec fn run(state: State, events: Seq<EventModel>) -> (State, Seq<ActionModel>)
    decreases events.len(),
{
    if events.len() == 0 {
        (state, Seq::empty())
    } else {
        let (before, actions) = run(state, events.drop_last());
        let (after, action) = transition(before, events.last());
        (after, actions.push(action))
    }
}

/// The bytes of several reads, in the order in which they were read.
pub open spec fn joined(chunks: Seq<Seq<u8>>) -> Seq<u8>
    decreases chunks.len(),
{
    if chunks.len() == 0 {
        Seq::empty()
    } else {
        joined(chunks.drop_last()) + chunks.last()
    }
}

/// Reads from the client, as events.
pub open spec fn reads(chunks: Seq<Seq<u8>>) -> Seq<EventModel> {
    Seq::new(chunks.len(), |i: int| EventModel::ClientData(chunks[i]))
}

/// The search for the `Host` field does not depend on where the stream was
/// cut into reads: two reads in a row lead where one read of both leads.
pub proof fn law_reads_can_be_cut_anywhere(first: Seq<u8>, second: Seq<u8>)
    ensures
        ({
            let (state, _) = transition(State::initial(), EventModel::ClientData(first));
            state is Scanning ==> transition(state, EventModel::ClientData(second)) == transition(
                State::initial(),
                EventModel::ClientData(first + second),
            )
        }),
{
    let empty = Seq::<u8>::empty();
    assert(empty + first =~= first);
    assert(empty + (first + second) =~= first + second);
    lemma_search_resumes(first, second, 0);
}

/// A request whose `Host` field stands behind any number of other fields is
/// replayed as it was sent: once the host is resolved and the upstream is
/// connected, the header that is written first is those fields and the
/// `Host` field, byte for byte, and what was read behind them follows.
pub proof fn law_header_is_replayed(
    others: Seq<Line>,
    host: Line,
    rest: Seq<u8>,
    addresses: Seq<Address>,
)
    requires
        forall|i: int|
            0 <= i < others.len() ==> (#[trigger] others[i]).well_formed() && !is_host_name(
                others[i].name,
            ),
        host.well_formed(),
        is_host_name(host.name),
        strip_port(host.value).len() > 0,
        addresses.len() > 0,
        server_name_valid(decode_utf8(strip_port(host.value))),
    ensures
        ({
            let name = decode_utf8(strip_port(host.value));
            let request = block(others) + host.encoded() + rest;
            let (resolving, first) = transition(State::initial(), EventModel::ClientData(request));
            let (connecting, second) = transition(resolving, EventModel::Resolved(addresses));
            let (relaying, third) = transition(connecting, EventModel::Connected);
            &&& first == ActionModel::Resolve(name)
            &&& second == ActionModel::Connect(
                TargetModel { address: addresses.last(), port: UPSTREAM_PORT, server_name: name },
            )
            &&& third == ActionModel::Replay { header: block(others) + host.encoded(), leftover: rest }
            &&& relaying == State::Relaying
        }),
{
    let request = block(others) + host.encoded() + rest;
    let end = (block(others) + host.encoded()).len() as int;
    law_host_found(others, host, rest);
    lemma_course_of_a_request(request, strip_port(host.value), end, addresses);
    assert(request.take(end) =~= block(others) + host.encoded());
    assert(request.skip(end) =~= rest);
}

proof fn lemma_course_of_a_request(
    request: Seq<u8>,
    host: Seq<u8>,
    end: int,
    addresses: Seq<Address>,
)
    requires
        host_from(request, 0) == (HostModel::Found { host, end }),
        host.len() > 0,
        addresses.len() > 0,
        server_name_valid(decode_utf8(host)),
    ensures
        ({
            let name = decode_utf8(host);
            let (resolving, first) = transition(State::initial(), EventModel::ClientData(request));
            let (connecting, second) = transition(resolving, EventModel::Resolved(addresses));
            let (relaying, third) = transition(connecting, EventModel::Connected);
            &&& first == ActionModel::Resolve(name)
            &&& second == ActionModel::Connect(
                TargetModel { address: addresses.last(), port: UPSTREAM_PORT, server_name: name },
            )
            &&& third == ActionModel::Replay {
                header: request.take(end),
                leftover: request.skip(end),
            }
            &&& relaying == State::Relaying
        }),
{
    assert(Seq::<u8>::empty() + request =~= request);
}

/// The action asks for nothing towards the upstream: no lookup, no
/// connection, no byte.
pub open spec fn leaves_upstream_alone(action: ActionModel) -> bool {
    action is ReadClient || action is Close
}

/// The cursor stays inside the buffer.
pub proof fn law_state_stays_well_formed(state: State, event: EventModel)
    requires
        state.wf(),
    ensures
        transition(state, event).0.wf(),
{
    if let State::Scanning { buffer, cursor } = state {
        if let EventModel::ClientData(bytes) = event {
            lemma_host_from(buffer + bytes, cursor);
        }
    }
}

/// A closed connection stays closed, with the outcome it closed with, and
/// asks for nothing but to be closed.
pub proof fn law_closed_is_final(outcome: Option<Error>, events: Seq<EventModel>)
    ensures
        run(State::Closed { outcome }, events).0 == (State::Closed { outcome }),
        run(State::Closed { outcome }, events).1.len() == events.len(),
        forall|i: int|
            0 <= i < events.len() ==> run(State::Closed { outcome }, events).1[i]
                == ActionModel::Close(outcome),
    decreases events.len(),
{
    if events.len() > 0 {
        law_closed_is_final(outcome, events.drop_last());
    }
}

proof fn lemma_scanning_without_host(chunks: Seq<Seq<u8>>)
    requires
        !(host_from(joined(chunks), 0) is Found),
    ensures
        ({
            let (state, actions) = run(State::initial(), reads(chunks));
            &&& actions.len() == chunks.len()
            &&& forall|i: int| 0 <= i < actions.len() ==> leaves_upstream_alone(actions[i])
            &&& match state {
                State::Scanning { buffer, cursor } => buffer == joined(chunks) && host_from(
                    buffer,
                    0,
                ) == (HostModel::NeedMoreData { cursor }),
                State::Closed { outcome } => outcome == Some(Error::NonText),
                _ => false,
            }
        }),
    decreases chunks.len(),
{
    if chunks.len() == 0 {
        lemma_position_absent(Seq::<u8>::empty(), 0, COLON);
    } else {
        let front = chunks.drop_last();
        let last = chunks.last();
        assert(reads(chunks).drop_last() =~= reads(front));
        assert(reads(chunks).last() == EventModel::ClientData(last));
        lemma_search_resumes(joined(front), last, 0);
        lemma_host_from(joined(front), 0);
        lemma_scanning_without_host(front);
        let (before, _) = run(State::initial(), reads(front));
        if let State::Scanning { buffer, cursor } = before {
            lemma_host_from(buffer + last, cursor);
        }
    }
}

/// Where the client closes before a `Host` field has appeared, the
/// connection ends with a parse error, and nothing was asked towards an
/// upstream on the way: no lookup, no connection.
pub proof fn law_no_host_no_upstream(chunks: Seq<Seq<u8>>)
    requires
        !(host_from(joined(chunks), 0) is Found),
    ensures
        ({
            let (state, actions) = run(
                State::initial(),
                reads(chunks).push(EventModel::ClientClosed),
            );
            &&& state matches State::Closed { outcome: Some(error) }
            &&& error.kind_of() == ErrorKind::Parse
            &&& actions.last() == ActionModel::Close(Some(error))
            &&& forall|i: int| 0 <= i < actions.len() ==> leaves_upstream_alone(actions[i])
        }),
{
    let events = reads(chunks).push(EventModel::ClientClosed);
    assert(events.drop_last() =~= reads(chunks));
    lemma_scanning_without_host(chunks);
}

/// Where the lookup returns no address, the connection ends with a
/// resolution error, and whatever is reported afterwards, no connection
/// is asked for.
pub proof fn law_no_address_no_connection(
    buffer: Seq<u8>,
    cursor: int,
    host: Seq<char>,
    later: Seq<EventModel>,
)
    ensures
        ({
            let (state, action) = transition(
                State::Resolving { buffer, cursor, host },
                EventModel::Resolved(Seq::empty()),
            );
            &&& state == State::Closed { outcome: Some(Error::NoAddress) }
            &&& action == ActionModel::Close(Some(Error::NoAddress))
            &&& Error::NoAddress.kind_of() == ErrorKind::Resolution
            &&& forall|i: int| 0 <= i < later.len() ==> run(state, later).1[i] is Close
        }),
{
    law_closed_is_final(Some(Error::NoAddress), later);
}

/// Where the handshake fails, the connection ends with a handshake error:
/// both sockets are closed, the client's too, and stay so.
pub proof fn law_failed_handshake_closes(buffer: Seq<u8>, cursor: int, later: Seq<EventModel>)
    ensures
        ({
            let (state, action) = transition(
                State::Connecting { buffer, cursor },
                EventModel::HandshakeFailed,
            );
            &&& state == State::Closed { outcome: Some(Error::Handshake) }
            &&& action == ActionModel::Close(Some(Error::Handshake))
            &&& Error::Handshake.kind_of() == ErrorKind::Tls
            &&& forall|i: int| 0 <= i < later.len() ==> run(state, later).1[i] is Close
        }),
{
    law_closed_is_final(Some(Error::Handshake), later);
}

/// A connection is only ever asked for to the last address that the lookup
/// returned, on port 443, under the name of the host that was looked up.
pub proof fn law_connect_target(state: State, event: EventModel)
    ensures
        transition(state, event).1 matches ActionModel::Connect(target) ==> {
            &&& target.port == UPSTREAM_PORT
            &&& state matches State::Resolving { host, .. }
            &&& event matches EventModel::Resolved(addresses)
            &&& addresses.len() > 0
            &&& target.address == addresses.last()
            &&& target.server_name == host
            &&& server_name_valid(host)
        },
{
}

/// A lookup is only ever asked for of a host that is not empty.
pub proof fn law_lookup_of_a_host(state: State, event: EventModel)
    requires
        state.wf(),
    ensures
        transition(state, event).1 matches ActionModel::Resolve(host) ==> host.len() > 0,
{
    if let State::Scanning { buffer, cursor } = state {
        if let EventModel::ClientData(bytes) = event {
            lemma_host_from(buffer + bytes, cursor);
            if let HostModel::Found { host, end } = host_from(buffer + bytes, cursor) {
                if host.len() > 0 {
                    lemma_decoded_not_empty(host);
                }
            }
        }
    }
}

/// All that was read from the client, in order.
pub open spec fn from_client(events: Seq<EventModel>) -> Seq<u8>
    decreases events.len(),
{
    if events.len() == 0 {
        Seq::empty()
    } else {
        from_client(events.drop_last()) + match events.last() {
            EventModel::ClientData(bytes) => bytes,
            _ => Seq::empty(),
        }
    }
}

/// All that was read from the upstream, in order.
pub open spec fn from_upstream(events: Seq<EventModel>) -> Seq<u8>
    decreases events.len(),
{
    if events.len() == 0 {
        Seq::empty()
    } else {
        from_upstream(events.drop_last()) + match events.last() {
            EventModel::UpstreamData(bytes) => bytes,
            _ => Seq::empty(),
        }
    }
}

/// All that the actions write to the upstream, in order.
pub open spec fn to_upstream(actions: Seq<ActionModel>) -> Seq<u8>
    decreases actions.len(),
{
    if actions.len() == 0 {
        Seq::empty()
    } else {
        to_upstream(actions.drop_last()) + match actions.last() {
            ActionModel::Replay { header, leftover } => header + leftover,
            ActionModel::ToUpstream(bytes) => bytes,
            _ => Seq::empty(),
        }
    }
}

/// All that the actions write to the client, in order.
pub open spec fn to_client(actions: Seq<ActionModel>) -> Seq<u8>
    decreases actions.len(),
{
    if actions.len() == 0 {
        Seq::empty()
    } else {
        to_client(actions.drop_last()) + match actions.last() {
            ActionModel::ToClient(bytes) => bytes,
            _ => Seq::empty(),
        }
    }
}

/// What ties the bytes written to the bytes read, in each state.
spec fn piped(state: State, events: Seq<EventModel>, actions: Seq<ActionModel>) -> bool {
    match state {
        State::Scanning { buffer, .. }
        | State::Resolving { buffer, .. }
        | State::Connecting { buffer, .. } => {
            &&& state.wf()
            &&& buffer == from_client(events)
            &&& from_upstream(events).len() == 0
            &&& to_upstream(actions).len() == 0
            &&& to_client(actions).len() == 0
        },
        State::Relaying => {
            &&& to_upstream(actions) == from_client(events)
            &&& to_client(actions) == from_upstream(events)
        },
        State::Closed { .. } => {
            &&& to_upstream(actions).is_prefix_of(from_client(events))
            &&& to_client(actions).is_prefix_of(from_upstream(events))
        },
    }
}

proof fn lemma_piped(events: Seq<EventModel>)
    ensures
        piped(run(State::initial(), events).0, events, run(State::initial(), events).1),
    decreases events.len(),
{
    if events.len() > 0 {
        let front = events.drop_last();
        let event = events.last();
        lemma_piped(front);
        let (before, actions) = run(State::initial(), front);
        let (after, action) = transition(before, event);
        assert(actions.push(action).drop_last() =~= actions);
        match before {
            State::Scanning { buffer, cursor } => {
                law_state_stays_well_formed(before, event);
            },
            State::Resolving { buffer, cursor, host } => {},
            State::Connecting { buffer, cursor } => {
                assert(buffer.take(cursor) + buffer.skip(cursor) =~= buffer);
            },
            State::Relaying => {},
            State::Closed { outcome } => {},
        }
    }
}

/// The proxy is a transparent pipe. Whatever happens on a connection, the
/// bytes written to the upstream are bytes read from the client, in the
/// order in which they were read and with none left out in between, and
/// likewise from the upstream to the client. While the connection relays,
/// every byte read from either side has been written to the other: the
/// scanned header first, then what was read behind it, then the rest as it
/// came.
pub proof fn law_relay_is_transparent(events: Seq<EventModel>)
    ensures
        ({
            let (state, actions) = run(State::initial(), events);
            &&& to_upstream(actions).is_prefix_of(from_client(events))
            &&& to_client(actions).is_prefix_of(from_upstream(events))
            &&& state is Relaying ==> to_upstream(actions) == from_client(events) && to_client(
                actions,
            ) == from_upstream(events)
        }),
{
    lemma_piped(events);
}

proof fn lemma_decoded_not_empty(bytes: Seq<u8>)
    requires
        bytes.len() > 0,
        valid_utf8(bytes),
    ensures
        decode_utf8(bytes).len() > 0,
{
}

} // verus!
