//! Errors surfaced synchronously to callers.
//!
//! Transport faults and decode faults travel asynchronously through the
//! event stream instead; see the event bridge.
use vstd::prelude::*;

verus! {

/// The step of connection establishment that failed.
#[derive(Clone, Copy, Debug, PartialEq, Eq)]
pub enum SetupStage {
    /// Checking the destination, principal and port before any I/O.
    Validate,
    /// Dialing the remote endpoint.
    Dial,
    /// The protocol handshake.
    Handshake,
    /// Authenticating the principal.
    Auth,
    /// Opening the interactive channel.
    ChannelOpen,
    /// Requesting a pseudo-terminal.
    PtyRequest,
    /// Starting the remote shell.
    ShellStart,
}

/// An error returned to the caller that triggered it.
#[derive(Debug, PartialEq, Eq)]
pub enum BridgeError {
    /// Connection establishment failed at the named stage; no session was
    /// registered.
    Setup(SetupStage, String),
    /// The operation needs an active session and none is registered.
    NotConnected,
    /// The bounded write queue is full right now; the bytes were not
    /// accepted.  Back-pressure, not a session fault.
    Busy,
    /// The I/O loop's execution context ended abnormally during an
    /// explicit disconnect, so teardown may not have cleaned up properly.
    Teardown(String),
}

/// The fixed lead-in of each setup stage's description.
pub open spec fn stage_prefix(stage: SetupStage) -> Seq<char> {
    match stage {
        SetupStage::Validate => "connection setup failed while validating inputs: "@,
        SetupStage::Dial => "connection setup failed while dialing: "@,
        SetupStage::Handshake => "connection setup failed during the handshake: "@,
        SetupStage::Auth => "connection setup failed during authentication: "@,
        SetupStage::ChannelOpen => "connection setup failed opening the channel: "@,
        SetupStage::PtyRequest => "connection setup failed requesting a pty: "@,
        SetupStage::ShellStart => "connection setup failed starting the shell: "@,
    }
}

/// The text that describes each error.
pub open spec fn describe_text(e: BridgeError) -> Seq<char> {
    match e {
        BridgeError::Setup(stage, detail) => stage_prefix(stage) + detail@,
        BridgeError::NotConnected => "not connected"@,
        BridgeError::Busy => "write queue is full"@,
        BridgeError::Teardown(detail) => "disconnect did not clean up properly: "@ + detail@,
    }
}

impl BridgeError {
    /// True for a setup failure at the given stage.
    pub open spec fn is_setup_at(self, stage: SetupStage) -> bool {
        match self {
            BridgeError::Setup(s, _) => s == stage,
            _ => false,
        }
    }

    /// A short description of the error, for display by the caller.
    pub fn describe(&self) -> (r: String)
        ensures
            r@ == describe_text(*self),
    {
        match self {
            BridgeError::Setup(stage, detail) => {
                let mut msg = String::new();
                msg.append(match stage {
                    SetupStage::Validate => "connection setup failed while validating inputs: ",
                    SetupStage::Dial => "connection setup failed while dialing: ",
                    SetupStage::Handshake => "connection setup failed during the handshake: ",
                    SetupStage::Auth => "connection setup failed during authentication: ",
                    SetupStage::ChannelOpen => "connection setup failed opening the channel: ",
                    SetupStage::PtyRequest => "connection setup failed requesting a pty: ",
                    SetupStage::ShellStart => "connection setup failed starting the shell: ",
                });
                msg.append(detail.as_str());
                msg
            },
            BridgeError::NotConnected => "not connected".to_owned(),
            BridgeError::Busy => "write queue is full".to_owned(),
            BridgeError::Teardown(detail) => {
                let mut msg = String::new();
                msg.append("disconnect did not clean up properly: ");
                msg.append(detail.as_str());
                msg
            },
        }
    }
}

} // verus!
