//! The backend handshake state machine.
//!
//! A backend announces itself to the broker under a logical name and
//! re-sends that registration on a fixed interval until an introduction
//! frame arrives with a frontend's public address. It then replies exactly
//! once toward that address, which opens its side of the NAT mapping, and
//! immediately proceeds to hand its socket to the secure transport layer as
//! a listening endpoint; it does not wait for a confirmation. The
//! asymmetry with the frontend is deliberate: the frontend's continuing
//! punch retransmissions traverse the now-open mapping. The driving loop,
//! socket and timer live outside the library and feed events in; it starts
//! the next cycle on a fresh endpoint after each handoff.

use vstd::prelude::*;

use crate::addr::SockAddr;
use crate::endpoint::Kind;
use crate::message::{encode_conn_frame, encode_stun_frame, spec_conn_encode, spec_stun_encode,
    ConnModel, Message, PeerEvent, StunModel};

verus! {

/// Where a backend handshake cycle stands.
pub enum BackendState {
    /// Not yet announced to the broker.
    Registering,
    /// Registration sent; re-sending it each tick while waiting for a
    /// match.
    AwaitingMatch,
    /// Replied once toward the frontend: the socket is ready for the
    /// transport layer.
    Handoff { target: SockAddr },
}

/// What the driving loop must do after a step.
pub enum BackendCommand {
    /// Send this registration frame to the broker.
    SendBroker { data: Vec<u8> },
    /// Send this one reply frame to the introduced frontend address, then
    /// hand the socket to the transport layer as a listener.
    Reply { target: SockAddr, data: Vec<u8> },
    /// Nothing to do; keep waiting or polling.
    Idle,
}

/// A backend's configuration: its logical name, the local address of the
/// service it exposes, and the broker's address.
pub struct Backend {
    fqdn: String,
    laddr: SockAddr,
    stun_addr: String,
}

impl Backend {
    /// The logical name this backend serves.
    pub closed spec fn spec_fqdn(&self) -> Seq<char> {
        self.fqdn@
    }

    /// The local service address traffic is relayed to after handoff.
    pub closed spec fn spec_laddr(&self) -> crate::addr::AddrModel {
        self.laddr@
    }

    /// The broker's address.
    pub closed spec fn spec_stun_addr(&self) -> Seq<char> {
        self.stun_addr@
    }

    pub fn new(fqdn: &str, laddr: SockAddr, stun_addr: &str) -> (r: Self)
        ensures
            r.spec_fqdn() == fqdn@,
            r.spec_laddr() == laddr@,
            r.spec_stun_addr() == stun_addr@,
    {
        Backend {
            fqdn: String::from_str(fqdn),
            laddr,
            stun_addr: String::from_str(stun_addr),
        }
    }

    pub fn fqdn(&self) -> (r: &str)
        ensures
            r@ == self.spec_fqdn(),
    {
        self.fqdn.as_str()
    }

    pub fn laddr(&self) -> (r: &SockAddr)
        ensures
            r@ == self.spec_laddr(),
    {
        &self.laddr
    }

    pub fn stun_addr(&self) -> (r: &str)
        ensures
            r@ == self.spec_stun_addr(),
    {
        self.stun_addr.as_str()
    }

    /// The registration frame announcing this backend to the broker.
    pub fn registration_data(&self) -> (r: Vec<u8>)
        ensures
            r@ == spec_stun_encode(StunModel { kind: Kind::Backend, fqdn: self.spec_fqdn() }),
    {
        encode_stun_frame(Kind::Backend, self.fqdn.clone())
    }

    /// One step of the handshake cycle: from the current state and one
    /// observed event to the next state and the action the driver must
    /// take.
    ///
    /// Each timer tick re-sends the registration until an introduction
    /// frame arrives; the first introduction fixes the frontend's address,
    /// and the command is to send one reply, an introduction frame
    /// carrying this cycle's own endpoint address `laddr` under the name
    /// the introduction carried, and then hand the socket off. Acknowledgments
    /// and unrecognized frames are ignored and waiting continues.
    pub fn step(&self, state: BackendState, event: PeerEvent, laddr: &SockAddr) -> (r: (
        BackendState,
        BackendCommand,
    ))
        requires
            laddr@.wf(),
        ensures
            ({
                let (next, cmd) = r;
                match state {
                    BackendState::Registering | BackendState::AwaitingMatch => match event {
                        PeerEvent::Tick => (next is AwaitingMatch) && (cmd
                            matches BackendCommand::SendBroker { data } && data@
                            == spec_stun_encode(
                            StunModel { kind: Kind::Backend, fqdn: self.spec_fqdn() },
                        )),
                        PeerEvent::Frame(m) => match m {
                            Message::Conn(cm) => (next matches BackendState::Handoff { target }
                                && target@ == cm.raddr@) && (cmd matches BackendCommand::Reply {
                                target,
                                data,
                            } && target@ == cm.raddr@ && data@ == spec_conn_encode(
                                ConnModel {
                                    kind: Kind::Backend,
                                    fqdn: cm.fqdn@,
                                    raddr: laddr@,
                                },
                            )),
                            _ => next == state && (cmd is Idle),
                        },
                        PeerEvent::Nothing => next == state && (cmd is Idle),
                    },
                    BackendState::Handoff { target: t0 } => (next
                        matches BackendState::Handoff { target } && target@ == t0@) && (cmd
                        is Idle),
                }
            }),
    {
        match state {
            BackendState::Registering | BackendState::AwaitingMatch => match event {
                PeerEvent::Tick => (
                    BackendState::AwaitingMatch,
                    BackendCommand::SendBroker { data: self.registration_data() },
                ),
                PeerEvent::Frame(m) => match m {
                    Message::Conn(cm) => {
                        let dest = cm.raddr.duplicate();
                        let data = encode_conn_frame(Kind::Backend, laddr.duplicate(), cm.fqdn);
                        (
                            BackendState::Handoff { target: cm.raddr },
                            BackendCommand::Reply { target: dest, data },
                        )
                    },
                    _ => (state, BackendCommand::Idle),
                },
                PeerEvent::Nothing => (state, BackendCommand::Idle),
            },
            BackendState::Handoff { target } => (
                BackendState::Handoff { target },
                BackendCommand::Idle,
            ),
        }
    }
}

} // verus!
