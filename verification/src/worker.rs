//! The worker that turns a query into its embedding: it is first given the
//! model, and then encodes each text it is sent, one at a time. The model
//! and the channel are the caller's; what is decided here is what the worker
//! does next.

use vstd::prelude::*;

verus! {

/// What the worker is sent.
#[derive(Debug, PartialEq, Eq, Clone)]
pub enum MiniLmWorkereComm {
    ModelData { tokenizer_bytes: Vec<u8>, weights_bytes: Vec<u8> },
    TextInput(String),
}

/// What the worker answers: the embedding of a text, each component as the
/// bit pattern of a 32-bit IEEE-754 number.
#[derive(Debug, PartialEq, Eq, Clone)]
pub struct EncodeResponse(pub Vec<u32>);

/// The warning of a worker that was not sent the model first.
pub const NO_MODEL_WARNING: &'static str = "Failed to get model data as first message";

/// The warning of a worker that could not make the model.
pub const BAD_MODEL_WARNING: &'static str = "Failed to create model from provided data";

/// The warning of a worker that was sent the model twice.
pub const SECOND_MODEL_WARNING: &'static str = "Received model path after initialisation.";

/// The warning of a worker that could not encode a text.
pub const ENCODE_WARNING: &'static str = "Failed to encode data";

/// The warning of a worker that could not send its answer.
pub const SEND_WARNING: &'static str = "Failed to send encoded data";

/// Where the worker stands.
#[derive(Debug, Clone, Copy, PartialEq, Eq, Structural)]
pub enum Encoder {
    /// Waiting for the model.
    AwaitingModel,
    /// Waiting for the model to be made of what was sent.
    Loading,
    /// Waiting for a text.
    Ready,
    /// Waiting for the embedding of the text.
    Encoding,
    /// Waiting for the embedding to be sent.
    Sending,
    Stopped,
}

/// What came of the last thing that the worker asked for.
#[derive(Debug, PartialEq, Eq)]
pub enum EncoderEvent {
    /// What was sent to the worker, or nothing where the channel is closed.
    Received(Option<MiniLmWorkereComm>),
    /// Whether the model could be made.
    ModelLoaded(bool),
    /// The embedding, or nothing where the text could not be encoded.
    Encoded(Option<Vec<u32>>),
    /// Whether the answer could be sent.
    Sent(bool),
}

/// What the worker asks for next.
#[derive(Debug, PartialEq, Eq)]
pub enum EncoderAction {
    Receive,
    LoadModel { tokenizer_bytes: Vec<u8>, weights_bytes: Vec<u8> },
    Encode(String),
    Send(EncodeResponse),
    /// Nothing more; with a warning where the worker does not end in order.
    Stop { warning: Option<&'static str> },
}

/// How the worker goes on: where it stands after `event`, and what it asks
/// for next. The first message has to be the model, and no later one may
/// be; every failure ends the worker.
pub open spec fn encoder_step(state: Encoder, event: EncoderEvent) -> (Encoder, EncoderAction) {
    match (state, event) {
        (
            Encoder::AwaitingModel,
            EncoderEvent::Received(
                Some(MiniLmWorkereComm::ModelData { tokenizer_bytes, weights_bytes }),
            ),
        ) => (Encoder::Loading, EncoderAction::LoadModel { tokenizer_bytes, weights_bytes }),
        (Encoder::AwaitingModel, _) => (
            Encoder::Stopped,
            EncoderAction::Stop { warning: Some(NO_MODEL_WARNING) },
        ),
        (Encoder::Loading, EncoderEvent::ModelLoaded(true)) => (
            Encoder::Ready,
            EncoderAction::Receive,
        ),
        (Encoder::Loading, _) => (
            Encoder::Stopped,
            EncoderAction::Stop { warning: Some(BAD_MODEL_WARNING) },
        ),
        (Encoder::Ready, EncoderEvent::Received(Some(MiniLmWorkereComm::TextInput(text)))) => (
            Encoder::Encoding,
            EncoderAction::Encode(text),
        ),
        (Encoder::Ready, EncoderEvent::Received(Some(MiniLmWorkereComm::ModelData { .. }))) => (
            Encoder::Stopped,
            EncoderAction::Stop { warning: Some(SECOND_MODEL_WARNING) },
        ),
        (Encoder::Encoding, EncoderEvent::Encoded(Some(embedding))) => (
            Encoder::Sending,
            EncoderAction::Send(EncodeResponse(embedding)),
        ),
        (Encoder::Encoding, _) => (
            Encoder::Stopped,
            EncoderAction::Stop { warning: Some(ENCODE_WARNING) },
        ),
        (Encoder::Sending, EncoderEvent::Sent(true)) => (Encoder::Ready, EncoderAction::Receive),
        (Encoder::Sending, _) => (
            Encoder::Stopped,
            EncoderAction::Stop { warning: Some(SEND_WARNING) },
        ),
        _ => (Encoder::Stopped, EncoderAction::Stop { warning: None }),
    }
}

/// Begins the worker.
pub fn encode_on_demand_start() -> (r: (Encoder, EncoderAction))
    ensures
        r == (Encoder::AwaitingModel, EncoderAction::Receive),
{
    (Encoder::AwaitingModel, EncoderAction::Receive)
}

/// Goes on with the worker after `event`.
pub fn encode_on_demand(state: Encoder, event: EncoderEvent) -> (r: (Encoder, EncoderAction))
    ensures
        r == encoder_step(state, event),
{
    match state {
        Encoder::AwaitingModel => match event {
            EncoderEvent::Received(
                Some(MiniLmWorkereComm::ModelData { tokenizer_bytes, weights_bytes }),
            ) => (Encoder::Loading, EncoderAction::LoadModel { tokenizer_bytes, weights_bytes }),
            _ => (Encoder::Stopped, EncoderAction::Stop { warning: Some(NO_MODEL_WARNING) }),
        },
        Encoder::Loading => match event {
            EncoderEvent::ModelLoaded(true) => (Encoder::Ready, EncoderAction::Receive),
            _ => (Encoder::Stopped, EncoderAction::Stop { warning: Some(BAD_MODEL_WARNING) }),
        },
        Encoder::Ready => match event {
            EncoderEvent::Received(Some(MiniLmWorkereComm::TextInput(text))) => (
                Encoder::Encoding,
                EncoderAction::Encode(text),
            ),
            EncoderEvent::Received(Some(MiniLmWorkereComm::ModelData { .. })) => (
                Encoder::Stopped,
                EncoderAction::Stop { warning: Some(SECOND_MODEL_WARNING) },
            ),
            _ => (Encoder::Stopped, EncoderAction::Stop { warning: None }),
        },
        Encoder::Encoding => match event {
            EncoderEvent::Encoded(Some(embedding)) => (
                Encoder::Sending,
                EncoderAction::Send(EncodeResponse(embedding)),
            ),
            _ => (Encoder::Stopped, EncoderAction::Stop { warning: Some(ENCODE_WARNING) }),
        },
        Encoder::Sending => match event {
            EncoderEvent::Sent(true) => (Encoder::Ready, EncoderAction::Receive),
            _ => (Encoder::Stopped, EncoderAction::Stop { warning: Some(SEND_WARNING) }),
        },
        Encoder::Stopped => (Encoder::Stopped, EncoderAction::Stop { warning: None }),
    }
}

} // verus!
