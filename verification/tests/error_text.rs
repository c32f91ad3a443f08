use session_bridge::errors::BridgeError;
use session_bridge::errors::SetupStage;

#[test]
fn setup_errors_name_their_stage() {
    let e = BridgeError::Setup(SetupStage::Validate, String::from("destination is empty"));
    assert_eq!(
        e.describe(),
        "connection setup failed while validating inputs: destination is empty"
    );
    let e = BridgeError::Setup(SetupStage::Dial, String::from("no route"));
    assert_eq!(e.describe(), "connection setup failed while dialing: no route");
    let e = BridgeError::Setup(SetupStage::Auth, String::from("denied"));
    assert_eq!(e.describe(), "connection setup failed during authentication: denied");
    let e = BridgeError::Setup(SetupStage::Handshake, String::from("bad banner"));
    assert_eq!(e.describe(), "connection setup failed during the handshake: bad banner");
    let e = BridgeError::Setup(SetupStage::ChannelOpen, String::from("refused"));
    assert_eq!(e.describe(), "connection setup failed opening the channel: refused");
    let e = BridgeError::Setup(SetupStage::PtyRequest, String::from("no pty"));
    assert_eq!(e.describe(), "connection setup failed requesting a pty: no pty");
    let e = BridgeError::Setup(SetupStage::ShellStart, String::from("no shell"));
    assert_eq!(e.describe(), "connection setup failed starting the shell: no shell");
}

#[test]
fn state_errors_describe_themselves() {
    assert_eq!(BridgeError::NotConnected.describe(), "not connected");
    assert_eq!(BridgeError::Busy.describe(), "write queue is full");
}

#[test]
fn teardown_error_is_distinct() {
    let e = BridgeError::Teardown(String::from("loop context panicked"));
    assert_eq!(e.describe(), "disconnect did not clean up properly: loop context panicked");
}
