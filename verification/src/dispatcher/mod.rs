//! What goes into the reactor and what comes out of it.

use vstd::prelude::*;
use crate::config::action::message::{Alert, AlertModel};
use crate::event::Event;

pub mod demux;
pub mod request;

verus! {

/// What the reactor sends out.
#[derive(Clone, Debug)]
pub enum Response<E: Event> {
    /// The reactor has stopped.
    Exit,
    /// An action has emitted an alert.
    Alert(Alert<E>),
}

/// What a `Response` holds.
#[verifier::ext_equal]
pub enum ResponseModel {
    Exit,
    Alert(AlertModel),
}

impl<E: Event> View for Response<E> {
    type V = ResponseModel;

    open spec fn view(&self) -> ResponseModel {
        match self {
            Response::Exit => ResponseModel::Exit,
            Response::Alert(alert) => ResponseModel::Alert(alert@),
        }
    }
}

/// The views of a sequence of responses.
pub open spec fn response_models<E: Event>(responses: Seq<Response<E>>) -> Seq<ResponseModel> {
    responses.map_values(|r: Response<E>| r@)
}

/// The kind of a response.
#[derive(Clone, Copy, Debug, Eq, Hash, PartialEq, Structural)]
pub enum ResponseHandle {
    Exit,
    Alert,
}

impl<E: Event> Response<E> {
    /// The kind of the response, by which a handler is chosen for it.
    pub fn handle(&self) -> (handle: ResponseHandle)
        ensures
            handle == (match self@ {
                ResponseModel::Exit => ResponseHandle::Exit,
                ResponseModel::Alert(_) => ResponseHandle::Alert,
            }),
    {
        match self {
            Response::Exit => ResponseHandle::Exit,
            Response::Alert(_) => ResponseHandle::Alert,
        }
    }
}

} // verus!
