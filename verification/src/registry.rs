//! The session registry: process-wide, single-slot, in-memory only.
//!
//! At most one session is registered at any time.  A connect retires any
//! prior session before the new one is stored; an explicit disconnect
//! atomically takes the entry, so a concurrent disconnect finds nothing to
//! do; the event bridge clears the entry, idempotently, when the terminal
//! event arrives.  The registry stores the session's identifier; the write
//! queue's sending end travels beside it in whatever runs the loop.
use vstd::prelude::*;

use crate::errors::BridgeError;
use crate::errors::SetupStage;
use crate::mailbox::Mailbox;
use crate::proto::Command;

verus! {

/// The single-slot store of the active session.
pub struct SessionRegistry {
    active: Option<u64>,
    next_id: u64,
}

/// True when the destination, principal, secret and port pass validation:
/// nothing empty, and a usable port.  Checked before any network action.
pub open spec fn valid_target(
    dest: Seq<char>,
    port: u16,
    principal: Seq<char>,
    secret: Option<Seq<char>>,
) -> bool {
    &&& dest.len() > 0
    &&& principal.len() > 0
    &&& port != 0
    &&& (secret matches Some(s) ==> s.len() > 0)
}

/// The connection setup steps that touch the outside world, in the order
/// they run after validation.
pub open spec fn stage_of(j: int) -> SetupStage {
    if j == 0 {
        SetupStage::Dial
    } else if j == 1 {
        SetupStage::Handshake
    } else if j == 2 {
        SetupStage::Auth
    } else if j == 3 {
        SetupStage::ChannelOpen
    } else if j == 4 {
        SetupStage::PtyRequest
    } else {
        SetupStage::ShellStart
    }
}

/// How many setup steps follow validation.
pub const SETUP_STEPS: usize = 6;

impl SessionRegistry {
    /// The registered session's identifier, if one is registered.
    pub closed spec fn spec_active(&self) -> Option<u64> {
        self.active
    }

    /// The identifier the next session will get.
    pub closed spec fn spec_next(&self) -> u64 {
        self.next_id
    }

    /// Identifiers are handed out in increasing order, so the registered
    /// one is always below the next.
    pub open spec fn wf(&self) -> bool {
        self.spec_active() matches Some(id) ==> id < self.spec_next()
    }

    /// An empty registry: nothing connected yet.
    pub fn new() -> (reg: SessionRegistry)
        ensures
            reg.wf(),
            reg.spec_active() is None,
            reg.spec_next() == 0,
    {
        SessionRegistry { active: None, next_id: 0 }
    }

    /// True when a session is registered.
    pub fn is_connected(&self) -> (r: bool)
        ensures
            r == (self.spec_active() is Some),
    {
        self.active.is_some()
    }

    /// True while identifier headroom remains, so [`Self::register`] may
    /// be called; exhausting the 64-bit counter is unreachable in
    /// practice, but an unverified caller can test rather than assume.
    pub fn has_id_headroom(&self) -> (r: bool)
        ensures
            r == (self.spec_next() < u64::MAX),
    {
        self.next_id < u64::MAX
    }

    /// Atomically removes and returns the registered session, so that of
    /// two concurrent disconnects one finds nothing to do.
    pub fn take(&mut self) -> (prior: Option<u64>)
        requires
            old(self).wf(),
        ensures
            final(self).wf(),
            prior == old(self).spec_active(),
            final(self).spec_active() is None,
            final(self).spec_next() == old(self).spec_next(),
    {
        let prior = self.active;
        self.active = None;
        prior
    }

    /// Registers a fresh session and returns its identifier.  The slot
    /// must already be empty: a prior session is retired first, never
    /// overwritten.
    pub fn register(&mut self) -> (id: u64)
        requires
            old(self).wf(),
            old(self).spec_active() is None,
            old(self).spec_next() < u64::MAX,
        ensures
            final(self).wf(),
            final(self).spec_active() == Some(id),
            id == old(self).spec_next(),
            final(self).spec_next() == old(self).spec_next() + 1,
    {
        let id = self.next_id;
        self.active = Some(id);
        self.next_id = self.next_id + 1;
        id
    }

    /// Clears the slot if it still refers to the given session; a slot
    /// already empty, or holding a newer session, stays as it is.  The
    /// event bridge calls this on the terminal event, and an explicit
    /// disconnect may already have cleared the slot: either order leaves
    /// the same state.
    pub fn clear_if(&mut self, id: u64)
        requires
            old(self).wf(),
        ensures
            final(self).wf(),
            final(self).spec_next() == old(self).spec_next(),
            old(self).spec_active() == Some(id) ==> final(self).spec_active() is None,
            old(self).spec_active() != Some(id) ==> final(self).spec_active() == old(
                self,
            ).spec_active(),
    {
        match self.active {
            Some(current) => {
                if current == id {
                    self.active = None;
                }
            },
            None => {},
        }
    }
}

/// Checks the connect inputs before any network action: an empty
/// destination, an empty principal, an empty secret, or port zero fails
/// immediately with a validation error, and nothing else happens.
pub fn validate_target(
    dest: &String,
    port: u16,
    principal: &String,
    secret: &Option<String>,
) -> (r: Result<(), BridgeError>)
    ensures
        r is Ok <==> valid_target(dest@, port, principal@, spec_secret(*secret)),
        r matches Err(e) ==> e.is_setup_at(SetupStage::Validate),
{
    if dest.as_str().is_empty() {
        return Err(BridgeError::Setup(SetupStage::Validate, "destination is empty".to_owned()));
    }
    if principal.as_str().is_empty() {
        return Err(BridgeError::Setup(SetupStage::Validate, "principal is empty".to_owned()));
    }
    if port == 0 {
        return Err(BridgeError::Setup(SetupStage::Validate, "port is out of range".to_owned()));
    }
    match secret {
        Some(s) => {
            if s.as_str().is_empty() {
                return Err(
                    BridgeError::Setup(
                        SetupStage::Validate,
                        "secret provided but empty".to_owned(),
                    ),
                );
            }
        },
        None => {},
    }
    Ok(())
}

/// The views of an optional secret.
pub open spec fn spec_secret(secret: Option<String>) -> Option<Seq<char>> {
    match secret {
        Some(s) => Some(s@),
        None => None,
    }
}

/// One whole connect attempt, with the outside setup steps played from a
/// script: entry `j` says whether step `stage_of(j)` succeeded.
///
/// Inputs are validated before anything else; on a validation error the
/// registry is untouched.  Any prior session is then retired, and its
/// identifier returned so its loop can be wound down.  The setup sequence
/// is all-or-nothing: every step must succeed before the new session is
/// registered, and a failure at any step reports that step and leaves no
/// partial session behind.
pub fn connect_scripted(
    reg: &mut SessionRegistry,
    dest: &String,
    port: u16,
    principal: &String,
    secret: &Option<String>,
    steps: &Vec<bool>,
) -> (r: (Result<u64, BridgeError>, Option<u64>))
    requires
        old(reg).wf(),
        old(reg).spec_next() < u64::MAX,
        steps@.len() == SETUP_STEPS,
    ensures
        final(reg).wf(),
        final(reg).spec_next() <= old(reg).spec_next() + 1,
        r.0 is Ok <==> (valid_target(dest@, port, principal@, spec_secret(*secret)) && forall|
            j: int,
        |
            0 <= j < SETUP_STEPS ==> steps@[j]),
        !valid_target(dest@, port, principal@, spec_secret(*secret)) ==> {
            &&& *final(reg) == *old(reg)
            &&& r.1 is None
            &&& (r.0 matches Err(e) && e.is_setup_at(SetupStage::Validate))
        },
        valid_target(dest@, port, principal@, spec_secret(*secret)) ==> {
            &&& r.1 == old(reg).spec_active()
            &&& (r.0 matches Ok(id) ==> final(reg).spec_active() == Some(id) && (
            old(reg).spec_active() matches Some(p) ==> p != id))
            &&& (r.0 is Err ==> final(reg).spec_active() is None)
            &&& (r.0 matches Err(e) ==> exists|j: int|
                0 <= j < SETUP_STEPS && !steps@[j] && (forall|m: int| 0 <= m < j ==> steps@[m])
                    && e.is_setup_at(stage_of(j)))
        },
{
    if let Err(e) = validate_target(dest, port, principal, secret) {
        return (Err(e), None);
    }
    let prior = reg.take();
    let mut j: usize = 0;
    while j < SETUP_STEPS
        invariant
            j <= SETUP_STEPS,
            steps@.len() == SETUP_STEPS,
            forall|m: int| 0 <= m < j ==> steps@[m],
            reg.wf(),
            reg.spec_active() is None,
            reg.spec_next() == old(reg).spec_next(),
            old(reg).spec_next() < u64::MAX,
            valid_target(dest@, port, principal@, spec_secret(*secret)),
            prior == old(reg).spec_active(),
            old(reg).wf(),
        decreases SETUP_STEPS - j,
    {
        if !steps[j] {
            let e = BridgeError::Setup(stage_name(j), "setup step failed".to_owned());
            return (Err(e), prior);
        }
        j = j + 1;
    }
    let id = reg.register();
    (Ok(id), prior)
}

/// The setup stage at position `j` of the sequence; the executable twin of
/// [`stage_of`].
pub fn stage_name(j: usize) -> (s: SetupStage)
    ensures
        s == stage_of(j as int),
{
    if j == 0 {
        SetupStage::Dial
    } else if j == 1 {
        SetupStage::Handshake
    } else if j == 2 {
        SetupStage::Auth
    } else if j == 3 {
        SetupStage::ChannelOpen
    } else if j == 4 {
        SetupStage::PtyRequest
    } else {
        SetupStage::ShellStart
    }
}

/// Enqueues outbound bytes as a `Write` command.  Fails with a
/// not-connected error when no session is registered, and reports
/// back-pressure, leaving the queue unchanged, when the bounded write
/// queue is full.  Success means the bytes were accepted into the queue,
/// not that they have reached the remote side.
pub fn send(reg: &SessionRegistry, queue: &mut Mailbox<Command>, data: Vec<u8>) -> (r: Result<
    (),
    BridgeError,
>)
    requires
        old(queue).wf(),
    ensures
        final(queue).wf(),
        final(queue).spec_bound() == old(queue).spec_bound(),
        reg.spec_active() is None ==> r == Result::<(), BridgeError>::Err(
            BridgeError::NotConnected,
        ) && final(queue)@ == old(queue)@,
        reg.spec_active() is Some ==> {
            &&& (r is Ok <==> old(queue)@.len() < old(queue).spec_bound())
            &&& (r is Ok ==> final(queue)@ == old(queue)@.push(Command::Write(data)))
            &&& (r is Err ==> r == Result::<(), BridgeError>::Err(BridgeError::Busy)
                && final(queue)@ == old(queue)@)
        },
{
    if !reg.is_connected() {
        return Err(BridgeError::NotConnected);
    }
    if queue.try_send(Command::Write(data)) {
        Ok(())
    } else {
        Err(BridgeError::Busy)
    }
}

/// Tears down the active session, if any: atomically takes the registry
/// entry, then enqueues a `Disconnect` command best-effort — a full queue,
/// like a receiver already gone, is not an error.  With nothing registered
/// it succeeds and performs no action, so a second disconnect in a row is
/// harmless.  The caller then waits for the loop to wind down; see
/// [`finish_disconnect`].
pub fn disconnect(reg: &mut SessionRegistry, queue: &mut Mailbox<Command>) -> (r: (Result<
    (),
    BridgeError,
>, Option<u64>))
    requires
        old(reg).wf(),
        old(queue).wf(),
    ensures
        final(reg).wf(),
        final(queue).wf(),
        final(queue).spec_bound() == old(queue).spec_bound(),
        r.0 is Ok,
        r.1 == old(reg).spec_active(),
        final(reg).spec_active() is None,
        final(reg).spec_next() == old(reg).spec_next(),
        old(reg).spec_active() is None ==> final(queue)@ == old(queue)@,
        old(reg).spec_active() is Some ==> final(queue)@ == if old(queue)@.len() < old(
            queue,
        ).spec_bound() {
            old(queue)@.push(Command::Disconnect)
        } else {
            old(queue)@
        },
{
    let prior = reg.take();
    match prior {
        Some(_) => {
            let _accepted = queue.try_send(Command::Disconnect);
            (Ok(()), prior)
        },
        None => (Ok(()), prior),
    }
}

/// Maps how the I/O loop's execution context ended to the caller's
/// disconnect result: a clean exit is success; an abnormal one surfaces a
/// distinct teardown error, so "nothing to disconnect" and "disconnect did
/// not clean up" stay apart.
pub fn finish_disconnect(clean_exit: bool, detail: String) -> (r: Result<(), BridgeError>)
    ensures
        clean_exit <==> r is Ok,
        !clean_exit ==> r == Result::<(), BridgeError>::Err(BridgeError::Teardown(detail)),
{
    if clean_exit {
        Ok(())
    } else {
        Err(BridgeError::Teardown(detail))
    }
}

} // verus!
