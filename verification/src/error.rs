//! What can go wrong when overlays are started.

use vstd::prelude::*;

verus! {

/// Errors that can occur when spawning zen overlays.
///
/// Callers can match on variants to distinguish failure modes and decide
/// whether to retry or fall back gracefully. Each holds the underlying error
/// in words.
#[derive(Debug)]
#[non_exhaustive]
pub enum SpawnError {
    /// No Wayland display could be reached.
    WaylandConnection(String),
    /// A required Wayland protocol is not advertised by the compositor.
    MissingProtocol {
        /// The Wayland global that was not found.
        protocol: &'static str,
        /// Why it could not be bound.
        source: String,
    },
    /// The system refused to create a background thread.
    ThreadSpawn(String),
    /// Setup failed after connecting but before overlays were ready.
    Setup(String),
}

/// What a [`SpawnError`] says, in characters.
pub enum SpawnErrorView {
    WaylandConnection(Seq<char>),
    MissingProtocol { protocol: Seq<char>, source: Seq<char> },
    ThreadSpawn(Seq<char>),
    Setup(Seq<char>),
}

impl View for SpawnError {
    type V = SpawnErrorView;

    open spec fn view(&self) -> SpawnErrorView {
        match self {
            SpawnError::WaylandConnection(cause) => SpawnErrorView::WaylandConnection(cause@),
            SpawnError::MissingProtocol { protocol, source } => SpawnErrorView::MissingProtocol {
                protocol: protocol@,
                source: source@,
            },
            SpawnError::ThreadSpawn(cause) => SpawnErrorView::ThreadSpawn(cause@),
            SpawnError::Setup(cause) => SpawnErrorView::Setup(cause@),
        }
    }
}

impl SpawnErrorView {
    /// The message for the user.
    pub open spec fn message(self) -> Seq<char> {
        match self {
            SpawnErrorView::WaylandConnection(_) => "failed to connect to Wayland display"@,
            SpawnErrorView::MissingProtocol { protocol, source: _ } =>
                "required Wayland protocol unavailable: "@ + protocol,
            SpawnErrorView::ThreadSpawn(_) => "failed to spawn background thread"@,
            SpawnErrorView::Setup(_) => "Wayland setup failed"@,
        }
    }

    /// The underlying error.
    pub open spec fn cause(self) -> Seq<char> {
        match self {
            SpawnErrorView::WaylandConnection(cause) => cause,
            SpawnErrorView::MissingProtocol { protocol: _, source } => source,
            SpawnErrorView::ThreadSpawn(cause) => cause,
            SpawnErrorView::Setup(cause) => cause,
        }
    }
}

impl SpawnError {
    /// The message for the user, without the underlying error.
    pub fn message(&self) -> (message: String)
        ensures
            message@ == self@.message(),
    {
        match self {
            SpawnError::WaylandConnection(_) => "failed to connect to Wayland display".to_owned(),
            SpawnError::MissingProtocol { protocol, source: _ } => {
                let mut message = "required Wayland protocol unavailable: ".to_owned();
                message.append(protocol);
                message
            },
            SpawnError::ThreadSpawn(_) => "failed to spawn background thread".to_owned(),
            SpawnError::Setup(_) => "Wayland setup failed".to_owned(),
        }
    }

    /// The underlying error.
    pub fn cause(&self) -> (cause: &str)
        ensures
            cause@ == self@.cause(),
    {
        match self {
            SpawnError::WaylandConnection(cause) => cause.as_str(),
            SpawnError::MissingProtocol { protocol: _, source } => source.as_str(),
            SpawnError::ThreadSpawn(cause) => cause.as_str(),
            SpawnError::Setup(cause) => cause.as_str(),
        }
    }
}

} // verus!
