//! The frontend handshake state machine.
//!
//! A frontend registers with the broker under a logical name, waits for an
//! introduction frame carrying a backend's public address, then punches
//! toward that address on a fixed interval until the backend's single reply
//! arrives, and finally hands its socket off to the secure transport layer.
//! The decisions live here, verified; the driving loop, the socket and the
//! timer live outside the library and feed events in.

use vstd::prelude::*;

use crate::addr::SockAddr;
use crate::endpoint::Kind;
use crate::message::{encode_conn_frame, encode_stun_frame, spec_conn_encode, spec_stun_encode,
    ConnModel, Message, PeerEvent, StunModel};

verus! {

/// Where a frontend handshake stands.
pub enum FrontendState {
    /// Not yet announced to the broker.
    Registering,
    /// Registration sent; waiting for the broker's introduction.
    AwaitingIntroduction,
    /// Introduced: punching toward the backend's public address.
    Punching { target: SockAddr },
    /// The backend replied: the socket is ready for the transport layer.
    Handoff { target: SockAddr },
}

/// What the driving loop must do after a step.
pub enum FrontendCommand {
    /// Send this registration frame to the broker.
    SendBroker { data: Vec<u8> },
    /// Send this punch frame to the introduced backend address.
    SendPunch { target: SockAddr, data: Vec<u8> },
    /// Nothing to do; keep waiting or polling.
    Idle,
    /// The path is open: hand the socket to the transport layer, connected
    /// to `target`.
    Complete { target: SockAddr },
}

/// A frontend's configuration: its logical name, the local address to bind,
/// and the broker's address.
pub struct Frontend {
    fqdn: String,
    laddr: String,
    stun_addr: String,
}

impl Frontend {
    /// The logical name this frontend asks for.
    pub closed spec fn spec_fqdn(&self) -> Seq<char> {
        self.fqdn@
    }

    /// The local address the driving loop should bind.
    pub closed spec fn spec_laddr(&self) -> Seq<char> {
        self.laddr@
    }

    /// The broker's address.
    pub closed spec fn spec_stun_addr(&self) -> Seq<char> {
        self.stun_addr@
    }

    pub fn new(fqdn: &str, laddr: &str, stun_addr: &str) -> (r: Self)
        ensures
            r.spec_fqdn() == fqdn@,
            r.spec_laddr() == laddr@,
            r.spec_stun_addr() == stun_addr@,
    {
        Frontend {
            fqdn: String::from_str(fqdn),
            laddr: String::from_str(laddr),
            stun_addr: String::from_str(stun_addr),
        }
    }

    pub fn fqdn(&self) -> (r: &str)
        ensures
            r@ == self.spec_fqdn(),
    {
        self.fqdn.as_str()
    }

    pub fn laddr(&self) -> (r: &str)
        ensures
            r@ == self.spec_laddr(),
    {
        self.laddr.as_str()
    }

    pub fn stun_addr(&self) -> (r: &str)
        ensures
            r@ == self.spec_stun_addr(),
    {
        self.stun_addr.as_str()
    }

    /// The registration frame announcing this frontend to the broker.
    pub fn registration_data(&self) -> (r: Vec<u8>)
        ensures
            r@ == spec_stun_encode(StunModel { kind: Kind::Frontend, fqdn: self.spec_fqdn() }),
    {
        encode_stun_frame(Kind::Frontend, self.fqdn.clone())
    }

    /// The punch frame carrying this frontend's own local address.
    pub fn punch_data(&self, laddr: &SockAddr) -> (r: Vec<u8>)
        requires
            laddr@.wf(),
        ensures
            r@ == spec_conn_encode(
                ConnModel { kind: Kind::Frontend, fqdn: self.spec_fqdn(), raddr: laddr@ },
            ),
    {
        encode_conn_frame(Kind::Frontend, laddr.duplicate(), self.fqdn.clone())
    }

    /// One step of the handshake: from the current state and one observed
    /// event to the next state and the action the driver must take.
    ///
    /// Registration goes out once; every introduction frame received while
    /// waiting fixes the punch target; while punching, each timer tick
    /// retransmits the punch frame, and the first introduction frame whose
    /// role byte is `Backend` is the backend's reply and completes the
    /// handshake. Everything else is ignored and waiting continues.
    pub fn step(&self, state: FrontendState, event: PeerEvent, laddr: &SockAddr) -> (r: (
        FrontendState,
        FrontendCommand,
    ))
        requires
            laddr@.wf(),
        ensures
            ({
                let (next, cmd) = r;
                match state {
                    FrontendState::Registering => match event {
                        PeerEvent::Tick => (next is AwaitingIntroduction) && (cmd
                            matches FrontendCommand::SendBroker { data } && data@
                            == spec_stun_encode(
                            StunModel { kind: Kind::Frontend, fqdn: self.spec_fqdn() },
                        )),
                        _ => (next is Registering) && (cmd is Idle),
                    },
                    FrontendState::AwaitingIntroduction => match event {
                        PeerEvent::Frame(m) => match m {
                            Message::Conn(cm) => (next matches FrontendState::Punching { target }
                                && target@ == cm.raddr@) && (cmd is Idle),
                            _ => (next is AwaitingIntroduction) && (cmd is Idle),
                        },
                        _ => (next is AwaitingIntroduction) && (cmd is Idle),
                    },
                    FrontendState::Punching { target: t0 } => match event {
                        PeerEvent::Tick => (next matches FrontendState::Punching { target }
                            && target@ == t0@) && (cmd matches FrontendCommand::SendPunch {
                            target,
                            data,
                        } && target@ == t0@ && data@ == spec_conn_encode(
                            ConnModel {
                                kind: Kind::Frontend,
                                fqdn: self.spec_fqdn(),
                                raddr: laddr@,
                            },
                        )),
                        PeerEvent::Frame(m) => match m {
                            Message::Conn(cm) => if cm.kind == Kind::Backend {
                                (next matches FrontendState::Handoff { target } && target@ == t0@)
                                    && (cmd matches FrontendCommand::Complete { target } && target@
                                    == t0@)
                            } else {
                                (next matches FrontendState::Punching { target } && target@ == t0@)
                                    && (cmd is Idle)
                            },
                            _ => (next matches FrontendState::Punching { target } && target@
                                == t0@) && (cmd is Idle),
                        },
                        PeerEvent::Nothing => (next matches FrontendState::Punching { target }
                            && target@ == t0@) && (cmd is Idle),
                    },
                    FrontendState::Handoff { target: t0 } => (next
                        matches FrontendState::Handoff { target } && target@ == t0@) && (cmd
                        is Idle),
                }
            }),
    {
        match state {
            FrontendState::Registering => match event {
                PeerEvent::Tick => (
                    FrontendState::AwaitingIntroduction,
                    FrontendCommand::SendBroker { data: self.registration_data() },
                ),
                _ => (FrontendState::Registering, FrontendCommand::Idle),
            },
            FrontendState::AwaitingIntroduction => match event {
                PeerEvent::Frame(m) => match m {
                    Message::Conn(cm) => (
                        FrontendState::Punching { target: cm.raddr },
                        FrontendCommand::Idle,
                    ),
                    _ => (FrontendState::AwaitingIntroduction, FrontendCommand::Idle),
                },
                _ => (FrontendState::AwaitingIntroduction, FrontendCommand::Idle),
            },
            FrontendState::Punching { target } => match event {
                PeerEvent::Tick => {
                    let data = self.punch_data(laddr);
                    let dest = target.duplicate();
                    (
                        FrontendState::Punching { target },
                        FrontendCommand::SendPunch { target: dest, data },
                    )
                },
                PeerEvent::Frame(m) => match m {
                    Message::Conn(cm) => {
                        if cm.kind == Kind::Backend {
                            let dest = target.duplicate();
                            (
                                FrontendState::Handoff { target },
                                FrontendCommand::Complete { target: dest },
                            )
                        } else {
                            (FrontendState::Punching { target }, FrontendCommand::Idle)
                        }
                    },
                    _ => (FrontendState::Punching { target }, FrontendCommand::Idle),
                },
                PeerEvent::Nothing => (FrontendState::Punching { target }, FrontendCommand::Idle),
            },
            FrontendState::Handoff { target } => (
                FrontendState::Handoff { target },
                FrontendCommand::Idle,
            ),
        }
    }
}

} // verus!
