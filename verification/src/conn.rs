//! The decision core of the connection actor.
//!
//! The actor task that owns the socket multiplexes inbound lines and
//! queued commands.  Every decision it takes — how a classified packet is
//! dispatched, whether a queued command may be written to the transport,
//! and what is owed to a caller when the transport closes — is made here;
//! the task around it only performs the I/O that these decisions call
//! for.

use vstd::prelude::*;

use crate::response::{step, BuilderView, Response, ResponseBuilder, ResponseView};
use crate::{crlf, packet_text, Packet, TagView};

verus! {

/// Ghost model of a [`ConnectionCore`]: the classifier state and whether
/// a command is in flight.
#[verifier::ext_equal]
pub ghost struct CoreView {
    pub classifier: BuilderView,
    pub in_flight: bool,
}

/// Ghost model of a [`Dispatch`].
pub ghost enum DispatchView {
    Nothing,
    Event(Seq<TagView>),
    Reply(Seq<Seq<TagView>>),
}

/// What the actor must do with one inbound line: nothing, publish an
/// event packet to the subscribers, or deliver the aggregated reply to
/// the command in flight.
#[derive(Debug, PartialEq)]
pub enum Dispatch {
    Nothing,
    Event(Packet),
    Reply(Vec<Packet>),
}

impl View for Dispatch {
    type V = DispatchView;

    open spec fn view(&self) -> DispatchView {
        match self {
            Dispatch::Nothing => DispatchView::Nothing,
            Dispatch::Event(p) => DispatchView::Event(p.deep_view()),
            Dispatch::Reply(r) => DispatchView::Reply(r.deep_view()),
        }
    }
}

impl DeepView for Dispatch {
    type V = DispatchView;

    open spec fn deep_view(&self) -> DispatchView {
        self.view()
    }
}

/// What one inbound line does to the connection: the classifier takes
/// its step; an emitted event is always published, whatever the command
/// state; an emitted command reply goes to the command in flight, and is
/// discarded when none is — the flag in flight clears exactly when a
/// reply is delivered.
pub open spec fn core_on_line(s: CoreView, line: Seq<char>) -> (CoreView, DispatchView) {
    let stepped = step(s.classifier, line);
    match stepped.1 {
        None => (
            CoreView { classifier: stepped.0, in_flight: s.in_flight },
            DispatchView::Nothing,
        ),
        Some(ResponseView::Event(p)) => (
            CoreView { classifier: stepped.0, in_flight: s.in_flight },
            DispatchView::Event(p),
        ),
        Some(ResponseView::CommandResponse(r)) => if s.in_flight {
            (CoreView { classifier: stepped.0, in_flight: false }, DispatchView::Reply(r))
        } else {
            (CoreView { classifier: stepped.0, in_flight: false }, DispatchView::Nothing)
        },
    }
}

/// The bytes a command packet puts on the wire: its tag lines joined by
/// CRLF, followed by the packet's terminating blank line.
pub open spec fn packet_wire(p: Seq<TagView>) -> Seq<char> {
    packet_text(p) + crlf() + crlf()
}

/// The connection actor's state: the line classifier plus the
/// single-in-flight command discipline.
pub struct ConnectionCore {
    builder: ResponseBuilder,
    in_flight: bool,
}

impl View for ConnectionCore {
    type V = CoreView;

    closed spec fn view(&self) -> CoreView {
        CoreView { classifier: self.builder@, in_flight: self.in_flight }
    }
}

impl ConnectionCore {
    /// A fresh connection core: empty classifier, no command in flight.
    pub fn new() -> (r: ConnectionCore)
        ensures
            r@ == (CoreView {
                classifier: BuilderView {
                    buffered: Seq::empty(),
                    current: Seq::empty(),
                    sequence_open: false,
                },
                in_flight: false,
            }),
    {
        ConnectionCore { builder: ResponseBuilder::new(), in_flight: false }
    }

    /// Feeds one inbound line (without its terminator) to the classifier
    /// and decides where its output goes, exactly as [`core_on_line`]
    /// describes.
    pub fn on_line(&mut self, line: &str) -> (d: Dispatch)
        ensures
            final(self)@ == core_on_line(old(self)@, line@).0,
            d.deep_view() == core_on_line(old(self)@, line@).1,
    {
        match self.builder.add_line(line) {
            None => Dispatch::Nothing,
            Some(Response::Event(p)) => Dispatch::Event(p),
            Some(Response::CommandResponse(r)) => {
                if self.in_flight {
                    self.in_flight = false;
                    Dispatch::Reply(r)
                } else {
                    self.in_flight = false;
                    Dispatch::Nothing
                }
            },
        }
    }

    /// Accepts a queued command for the transport if none is in flight.
    ///
    /// While a command is in flight the call returns `None` and changes
    /// nothing: a second command's packet is never written before the
    /// first command's reply has been delivered.  Otherwise it marks the
    /// command as in flight and returns the bytes to write.
    pub fn try_begin_send(&mut self, pkt: &Packet) -> (w: Option<String>)
        ensures
            old(self)@.in_flight ==> w is None && final(self)@ == old(self)@,
            !old(self)@.in_flight ==> w is Some
                && w.unwrap()@ == packet_wire(pkt.deep_view())
                && final(self)@ == (CoreView {
                    classifier: old(self)@.classifier,
                    in_flight: true,
                }),
    {
        if self.in_flight {
            return None;
        }
        self.in_flight = true;
        let mut wire = crate::packet_to_string(pkt);
        wire.append("\r\n\r\n");
        proof {
            reveal_strlit("\r\n\r\n");
            assert(("\r\n\r\n")@ =~= crlf() + crlf());
            assert(wire@ =~= packet_wire(pkt.deep_view()));
        }
        Some(wire)
    }

    /// Takes the decisions owed on transport closure: the in-flight
    /// command, if any, must be resolved — with an empty reply list, so
    /// that its caller does not hang — and the returned flag says whether
    /// one was.
    pub fn on_close(&mut self) -> (had_in_flight: bool)
        ensures
            had_in_flight == old(self)@.in_flight,
            final(self)@ == (CoreView { classifier: old(self)@.classifier, in_flight: false }),
    {
        let had = self.in_flight;
        self.in_flight = false;
        had
    }

    /// Whether a command is currently in flight.
    pub fn is_in_flight(&self) -> (r: bool)
        ensures
            r == self@.in_flight,
    {
        self.in_flight
    }
}

/// THE SERIALIZATION LAW: an inbound line clears the in-flight flag only
/// by completing the command's reply and dispatching it to the waiting
/// command.  Together with the guard of [`ConnectionCore::try_begin_send`]
/// this keeps a second command off the wire until the first command's
/// reply has been delivered.
pub proof fn lemma_in_flight_cleared_only_by_reply(s: CoreView, line: Seq<char>)
    requires
        s.in_flight,
        !core_on_line(s, line).0.in_flight,
    ensures
        core_on_line(s, line).1 is Reply,
{
}

/// An event is never gated behind — and never consumes — the command in
/// flight: a line whose dispatch publishes an event leaves the command
/// state exactly as it was.
pub proof fn lemma_event_leaves_command_state(s: CoreView, line: Seq<char>)
    requires
        core_on_line(s, line).1 is Event,
    ensures
        core_on_line(s, line).0.in_flight == s.in_flight,
{
}

/// A reply is dispatched only to a command that is actually in flight,
/// and doing so takes that command out of flight.
pub proof fn lemma_reply_only_to_command_in_flight(s: CoreView, line: Seq<char>)
    requires
        core_on_line(s, line).1 is Reply,
    ensures
        s.in_flight,
        !core_on_line(s, line).0.in_flight,
{
}

} // verus!
