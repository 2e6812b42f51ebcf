//! The input side of the reactor: a channel of requests, and the rule by
//! which requests to stop are let through.

use vstd::prelude::*;
use std::sync::mpsc::Receiver;
use crate::dispatcher::request::Request;
use crate::event::Event;
use crate::support::receive;

verus! {

/// What is handed on of a value taken from the input, and the number of
/// requests to stop that were let through so far. The first request to
/// stop is handed on; a later one closes the input. Everything else
/// passes.
pub open spec fn gated<E: Event>(stops: nat, data: Option<Request<E>>) -> (Option<Request<E>>, nat) {
    match data {
        Some(Request::Exit) => if stops >= 1 {
            (None, stops)
        } else {
            (Some(Request::Exit), stops + 1)
        },
        _ => (data, stops),
    }
}

/// Takes requests from a channel and hands them to the reactor.
#[verifier::reject_recursive_types(T)]
pub struct Demultiplexer<T> {
    channel: Receiver<T>,
    stops: u32,
}

impl<T> Demultiplexer<T> {
    /// The number of requests to stop that were handed on.
    pub closed spec fn stops(&self) -> nat {
        self.stops as nat
    }

    pub fn new(channel: Receiver<T>) -> (demultiplexer: Demultiplexer<T>)
        ensures
            demultiplexer.stops() == 0,
    {
        Demultiplexer { channel: channel, stops: 0 }
    }
}

/// Decides what to hand on of `data`, a value taken from the input, when
/// `stops` requests to stop were handed on before.
pub fn pass<E: Event>(stops: &mut u32, data: Option<Request<E>>) -> (passed: Option<Request<E>>)
    ensures
        (passed, *final(stops) as nat) == gated(*old(stops) as nat, data),
{
    match data {
        Some(Request::Exit) => {
            if *stops >= 1 {
                None
            } else {
                *stops = 1;
                Some(Request::Exit)
            }
        },
        other => other,
    }
}

impl<E: Event> Demultiplexer<Request<E>> {
    /// Waits for the next request and hands it on, unless it is a second
    /// request to stop. `None` says that the input is closed.
    pub fn select(&mut self) -> (request: Option<Request<E>>)
        ensures
            exists|data: Option<Request<E>>|
                (request, final(self).stops()) == #[trigger] gated(old(self).stops(), data),
    {
        let data = receive(&self.channel);
        let request = pass(&mut self.stops, data);
        assert((request, self.stops()) == gated(old(self).stops(), data));
        request
    }
}

} // verus!
