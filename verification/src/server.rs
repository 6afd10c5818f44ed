//! The broker: presence registry and matching step.
//!
//! The broker keeps one presence record per (name, backend address) pair it
//! currently believes reachable. A registration from a backend upserts a
//! record; a registration from a frontend consumes the first live record
//! for the name, purging on the way every record for that name that has
//! outlived the liveness window. Each record is handed out at most once.

use vstd::prelude::*;

use crate::addr::{AddrModel, SockAddr};
use crate::endpoint::Kind;
use crate::message::{encode_conn_frame, encode_stun_frame, spec_conn_encode, spec_stun_decode,
    spec_stun_encode, ConnModel, StunMessage, StunModel};

verus! {

/// A record older than this many time units is never returned as a match
/// and is purged the next time its name is looked up.
pub const LIVENESS_WINDOW: u64 = 120;

/// One backend address currently believed reachable for a logical name.
pub struct PresenceRecord {
    pub fqdn: String,
    pub addr: SockAddr,
    pub time: u64,
}

/// The mathematical value of a [`PresenceRecord`].
#[verifier::ext_equal]
pub struct RecordModel {
    pub fqdn: Seq<char>,
    pub addr: AddrModel,
    pub time: u64,
}

impl View for PresenceRecord {
    type V = RecordModel;

    open spec fn view(&self) -> RecordModel {
        RecordModel { fqdn: self.fqdn@, addr: self.addr@, time: self.time }
    }
}

/// A record is live at `now` when its age does not exceed the liveness
/// window. A timestamp in the future counts as live.
pub open spec fn rec_live(e: RecordModel, now: u64) -> bool {
    now <= e.time + LIVENESS_WINDOW
}

/// A lookup for name `n` at time `now` keeps a record if it belongs to
/// another name or is still live.
pub open spec fn rec_keeps(e: RecordModel, n: Seq<char>, now: u64) -> bool {
    e.fqdn != n || rec_live(e, now)
}

/// The registry after a lookup for `n` at `now` has evicted every expired
/// record for that name.
pub open spec fn spec_purge(s: Seq<RecordModel>, n: Seq<char>, now: u64) -> Seq<RecordModel>
    decreases s.len(),
{
    if s.len() == 0 {
        Seq::empty()
    } else if rec_keeps(s[0], n, now) {
        seq![s[0]] + spec_purge(s.skip(1), n, now)
    } else {
        spec_purge(s.skip(1), n, now)
    }
}

/// The address of the first record for `n`, in registry order.
pub open spec fn spec_first_match(s: Seq<RecordModel>, n: Seq<char>) -> Option<AddrModel>
    decreases s.len(),
{
    if s.len() == 0 {
        None
    } else if s[0].fqdn == n {
        Some(s[0].addr)
    } else {
        spec_first_match(s.skip(1), n)
    }
}

/// The registry with the first record for `n` removed.
pub open spec fn spec_remove_first(s: Seq<RecordModel>, n: Seq<char>) -> Seq<RecordModel>
    decreases s.len(),
{
    if s.len() == 0 {
        s
    } else if s[0].fqdn == n {
        s.skip(1)
    } else {
        seq![s[0]] + spec_remove_first(s.skip(1), n)
    }
}

/// Whether some record holds exactly this (name, address) pair.
pub open spec fn spec_has_pair(s: Seq<RecordModel>, n: Seq<char>, a: AddrModel) -> bool {
    exists|i: int| 0 <= i < s.len() && s[i].fqdn == n && s[i].addr == a
}

/// The registry after an upsert: the record for the pair gets timestamp
/// `t`; a pair seen for the first time is appended.
pub open spec fn spec_upsert(s: Seq<RecordModel>, n: Seq<char>, a: AddrModel, t: u64) -> Seq<
    RecordModel,
>
    decreases s.len(),
{
    if s.len() == 0 {
        seq![RecordModel { fqdn: n, addr: a, time: t }]
    } else if s[0].fqdn == n && s[0].addr == a {
        seq![RecordModel { fqdn: n, addr: a, time: t }] + s.skip(1)
    } else {
        seq![s[0]] + spec_upsert(s.skip(1), n, a, t)
    }
}

/// Registry well-formedness: every (name, address) pair occurs at most
/// once, and every stored address is an IPv4 or IPv6 address.
pub open spec fn records_wf(s: Seq<RecordModel>) -> bool {
    &&& forall|i: int, j: int|
        0 <= i < j < s.len() ==> !(s[i].fqdn == s[j].fqdn && #[trigger] s[i].addr == #[trigger] s[j].addr)
    &&& forall|i: int| 0 <= i < s.len() ==> (#[trigger] s[i].addr).wf()
}

/// The model of a vector of records.
pub open spec fn models(s: Seq<PresenceRecord>) -> Seq<RecordModel> {
    s.map_values(|r: PresenceRecord| r@)
}

/// The rendezvous broker: its listen address and its presence registry.
pub struct StunServer {
    laddr: String,
    backends: Vec<PresenceRecord>,
}

impl View for StunServer {
    type V = Seq<RecordModel>;

    closed spec fn view(&self) -> Seq<RecordModel> {
        models(self.backends@)
    }
}

/// What the broker does with one received datagram.
pub enum BrokerOutput {
    /// Nothing to send: the frame was unrecognized, not addressed to the
    /// broker, a re-registration, or a request with no live backend.
    Ignored,
    /// A new backend registration: acknowledge it to the sender.
    Ack { data: Vec<u8> },
    /// A match: introduce the two parties to each other. `to_frontend`
    /// goes back to the sender, `to_backend` goes to `baddr`.
    Introductions { baddr: SockAddr, to_frontend: Vec<u8>, to_backend: Vec<u8> },
}

impl StunServer {
    /// The address the broker loop should bind.
    pub closed spec fn spec_laddr(&self) -> Seq<char> {
        self.laddr@
    }

    pub open spec fn wf(&self) -> bool {
        records_wf(self@)
    }

    pub fn new(laddr: &str) -> (r: Self)
        ensures
            r.spec_laddr() == laddr@,
            r@ == Seq::<RecordModel>::empty(),
            r.wf(),
    {
        let r = StunServer { laddr: String::from_str(laddr), backends: Vec::new() };
        proof {
            assert(r@ =~= Seq::<RecordModel>::empty());
        }
        r
    }

    pub fn laddr(&self) -> (r: &str)
        ensures
            r@ == self.spec_laddr(),
    {
        self.laddr.as_str()
    }

    /// Upserts the presence record for (fqdn, raddr) with timestamp `now`.
    /// Returns whether the pair is newly observed, which gates the broker's
    /// acknowledgment.
    pub fn add_backend(&mut self, fqdn: String, raddr: SockAddr, now: u64) -> (fresh: bool)
        requires
            old(self).wf(),
            raddr@.wf(),
        ensures
            final(self).wf(),
            final(self).spec_laddr() == old(self).spec_laddr(),
            fresh == !spec_has_pair(old(self)@, fqdn@, raddr@),
            final(self)@ == spec_upsert(old(self)@, fqdn@, raddr@, now),
    {
        let ghost orig = self@;
        let n = self.backends.len();
        let mut i: usize = 0;
        while i < n
            invariant
                n == self.backends.len(),
                i <= n,
                self@ == orig,
                orig == old(self)@,
                records_wf(orig),
                self.spec_laddr() == old(self).spec_laddr(),
                forall|j: int|
                    0 <= j < i ==> !(orig[j].fqdn == fqdn@ && orig[j].addr == raddr@),
            decreases n - i,
        {
            let same_name = self.backends[i].fqdn == fqdn;
            let same_addr = self.backends[i].addr.same_addr(&raddr);
            if same_name && same_addr {
                let rec = PresenceRecord { fqdn, addr: raddr, time: now };
                let ghost m = rec@;
                proof {
                    assert(orig[i as int].fqdn == m.fqdn && orig[i as int].addr == m.addr);
                    assert(spec_has_pair(orig, m.fqdn, m.addr));
                }
                self.backends.set(i, rec);
                proof {
                    assert(self@ =~= orig.update(i as int, m));
                    lemma_upsert_found(orig, m.fqdn, m.addr, now, i as int);
                    lemma_wf_update_same_pair(orig, i as int, m);
                }
                return false;
            }
            i += 1;
        }
        let rec = PresenceRecord { fqdn, addr: raddr, time: now };
        let ghost m = rec@;
        self.backends.push(rec);
        proof {
            assert(self@ =~= orig.push(m));
            assert(!spec_has_pair(orig, m.fqdn, m.addr));
            lemma_upsert_absent(orig, m.fqdn, m.addr, now);
            assert(records_wf(orig.push(m))) by {
                assert(forall|j: int| 0 <= j < orig.len() ==> orig.push(m)[j] == orig[j]);
                assert(orig.push(m)[orig.len() as int] == m);
                assert forall|x: int, y: int|
                    0 <= x < y < orig.push(m).len() implies !(orig.push(m)[x].fqdn == orig.push(
                    m,
                )[y].fqdn && #[trigger] orig.push(m)[x].addr == #[trigger] orig.push(m)[y].addr) by {
                    if y == orig.len() {
                        assert(!(orig[x].fqdn == m.fqdn && orig[x].addr == m.addr));
                    }
                }
            }
        }
        true
    }

    /// Looks a name up: evicts every expired record for the name, then
    /// removes and returns the address of the first remaining record, if
    /// any. Each live record is handed out at most once.
    pub fn get_backend(&mut self, fqdn: String, now: u64) -> (r: Option<SockAddr>)
        requires
            old(self).wf(),
        ensures
            final(self).wf(),
            final(self).spec_laddr() == old(self).spec_laddr(),
            ({
                let purged = spec_purge(old(self)@, fqdn@, now);
                match r {
                    Some(addr) => addr@.wf() && spec_first_match(purged, fqdn@) == Some(addr@)
                        && final(self)@ == spec_remove_first(purged, fqdn@),
                    None => spec_first_match(purged, fqdn@) is None && final(self)@ == purged,
                }
            }),
    {
        let ghost orig = self@;
        let ghost mut k: int = 0;
        proof {
            assert(orig.take(0) =~= Seq::<RecordModel>::empty());
            assert(spec_purge(orig.take(0), fqdn@, now) + orig.skip(0) =~= orig);
        }
        let mut i: usize = 0;
        while i < self.backends.len()
            invariant
                orig == old(self)@,
                records_wf(orig),
                self.spec_laddr() == old(self).spec_laddr(),
                0 <= i as int <= k <= orig.len(),
                i as int <= self.backends@.len(),
                self@ == spec_purge(orig.take(k), fqdn@, now) + orig.skip(k),
                i as int == spec_purge(orig.take(k), fqdn@, now).len(),
            decreases orig.len() - k,
        {
            let ghost pk = spec_purge(orig.take(k), fqdn@, now);
            proof {
                assert(self@.len() == pk.len() + orig.skip(k).len());
                assert(k < orig.len());
                assert(orig.take(k + 1) =~= orig.take(k).push(orig[k]));
                lemma_purge_push(orig.take(k), orig[k], fqdn@, now);
                assert(orig.skip(k)[0] == orig[k]);
                assert(self@[i as int] == orig[k]);
            }
            let keep = {
                let r = &self.backends[i];
                if !(r.fqdn == fqdn) {
                    true
                } else {
                    now <= r.time || now - r.time <= LIVENESS_WINDOW
                }
            };
            if keep {
                proof {
                    assert(self.backends@[i as int]@ == orig[k]);
                    assert(rec_keeps(orig[k], fqdn@, now));
                    assert(spec_purge(orig.take(k + 1), fqdn@, now) == pk.push(orig[k]));
                    assert(spec_purge(orig.take(k + 1), fqdn@, now) + orig.skip(k + 1) =~= pk
                        + orig.skip(k));
                    k = k + 1;
                }
                i += 1;
            } else {
                proof {
                    assert(self.backends@[i as int]@ == orig[k]);
                    assert(!rec_keeps(orig[k], fqdn@, now));
                    assert(spec_purge(orig.take(k + 1), fqdn@, now) == pk);
                }
                self.backends.remove(i);
                proof {
                    assert(self@ =~= (pk + orig.skip(k)).remove(i as int));
                    assert((pk + orig.skip(k)).remove(i as int) =~= pk + orig.skip(k + 1));
                    k = k + 1;
                }
            }
        }
        proof {
            assert(orig.take(k) =~= orig);
            assert(orig.skip(k) =~= Seq::<RecordModel>::empty());
            assert(self@ =~= spec_purge(orig, fqdn@, now));
            lemma_purge_wf(orig, fqdn@, now);
        }
        let ghost purged = spec_purge(orig, fqdn@, now);
        let mut j: usize = 0;
        while j < self.backends.len()
            invariant
                self@ == purged,
                purged == spec_purge(old(self)@, fqdn@, now),
                records_wf(purged),
                self.spec_laddr() == old(self).spec_laddr(),
                j <= self.backends@.len(),
                forall|l: int| 0 <= l < j ==> purged[l].fqdn != fqdn@,
            decreases self.backends@.len() - j,
        {
            if self.backends[j].fqdn == fqdn {
                proof {
                    assert(self.backends@[j as int]@ == purged[j as int]);
                    lemma_first_match_index(purged, fqdn@, j as int);
                }
                let rec = self.backends.remove(j);
                proof {
                    assert(rec@ == purged[j as int]);
                    assert(self@ =~= purged.remove(j as int));
                    lemma_wf_remove(purged, j as int);
                }
                return Some(rec.addr);
            }
            proof {
                assert(self.backends@[j as int]@ == purged[j as int]);
            }
            j += 1;
        }
        proof {
            lemma_first_match_none(purged, fqdn@);
        }
        None
    }

    /// One broker step: what the broker does with one datagram.
    ///
    /// Registration frames from a backend upsert the registry and earn an
    /// acknowledgment when the pair is new; registration frames from a
    /// frontend consume a live backend record and produce the two
    /// introduction frames; everything else is ignored.
    pub fn step(&mut self, buf: &[u8], sender: &SockAddr, now: u64) -> (out: BrokerOutput)
        requires
            old(self).wf(),
            sender@.wf(),
        ensures
            final(self).wf(),
            final(self).spec_laddr() == old(self).spec_laddr(),
            ({
                let d = spec_stun_decode(buf@);
                match d {
                    None => final(self)@ == old(self)@ && (out is Ignored),
                    Some(sm) => {
                        if sm.kind == Kind::Backend {
                            &&& final(self)@ == spec_upsert(old(self)@, sm.fqdn, sender@, now)
                            &&& if spec_has_pair(old(self)@, sm.fqdn, sender@) {
                                out is Ignored
                            } else {
                                out matches BrokerOutput::Ack { data } && data@
                                    == spec_stun_encode(
                                    StunModel { kind: Kind::Stun, fqdn: sm.fqdn },
                                )
                            }
                        } else if sm.kind == Kind::Frontend {
                            let purged = spec_purge(old(self)@, sm.fqdn, now);
                            match spec_first_match(purged, sm.fqdn) {
                                None => final(self)@ == purged && (out is Ignored),
                                Some(a) => final(self)@ == spec_remove_first(purged, sm.fqdn) && (
                                out matches BrokerOutput::Introductions {
                                    baddr,
                                    to_frontend,
                                    to_backend,
                                } && baddr@ == a && to_frontend@ == spec_conn_encode(
                                    ConnModel { kind: Kind::Backend, fqdn: sm.fqdn, raddr: a },
                                ) && to_backend@ == spec_conn_encode(
                                    ConnModel {
                                        kind: Kind::Backend,
                                        fqdn: sm.fqdn,
                                        raddr: sender@,
                                    },
                                )),
                            }
                        } else {
                            final(self)@ == old(self)@ && (out is Ignored)
                        }
                    },
                }
            }),
    {
        let mut msg = StunMessage::default();
        if msg.decode(buf).is_err() {
            return BrokerOutput::Ignored;
        }
        match msg.kind {
            Kind::Backend => {
                let fresh = self.add_backend(msg.fqdn.clone(), sender.duplicate(), now);
                if fresh {
                    BrokerOutput::Ack { data: encode_stun_frame(Kind::Stun, msg.fqdn) }
                } else {
                    BrokerOutput::Ignored
                }
            },
            Kind::Frontend => {
                match self.get_backend(msg.fqdn.clone(), now) {
                    None => BrokerOutput::Ignored,
                    Some(baddr) => {
                        let to_frontend = encode_conn_frame(
                            Kind::Backend,
                            baddr.duplicate(),
                            msg.fqdn.clone(),
                        );
                        let to_backend = encode_conn_frame(
                            Kind::Backend,
                            sender.duplicate(),
                            msg.fqdn,
                        );
                        BrokerOutput::Introductions { baddr, to_frontend, to_backend }
                    },
                }
            },
            _ => BrokerOutput::Ignored,
        }
    }

}

/// Purging distributes over appending one record.
proof fn lemma_purge_push(s: Seq<RecordModel>, e: RecordModel, n: Seq<char>, now: u64)
    ensures
        spec_purge(s.push(e), n, now) == if rec_keeps(e, n, now) {
            spec_purge(s, n, now).push(e)
        } else {
            spec_purge(s, n, now)
        },
    decreases s.len(),
{
    let sp = s.push(e);
    if s.len() == 0 {
        assert(sp[0] == e);
        assert(sp.skip(1) =~= Seq::<RecordModel>::empty());
        assert(spec_purge(Seq::<RecordModel>::empty(), n, now) == Seq::<RecordModel>::empty());
        if rec_keeps(e, n, now) {
            assert(spec_purge(sp, n, now) == seq![e] + spec_purge(sp.skip(1), n, now));
            assert(spec_purge(sp, n, now) =~= spec_purge(s, n, now).push(e));
        } else {
            assert(spec_purge(sp, n, now) == spec_purge(sp.skip(1), n, now));
            assert(spec_purge(sp, n, now) =~= spec_purge(s, n, now));
        }
    } else {
        assert(sp[0] == s[0]);
        assert(sp.skip(1) =~= s.skip(1).push(e));
        lemma_purge_push(s.skip(1), e, n, now);
        if rec_keeps(s[0], n, now) {
            assert(spec_purge(sp, n, now) == seq![sp[0]] + spec_purge(sp.skip(1), n, now));
            assert(spec_purge(s, n, now) == seq![s[0]] + spec_purge(s.skip(1), n, now));
            if rec_keeps(e, n, now) {
                assert(spec_purge(sp.skip(1), n, now) == spec_purge(s.skip(1), n, now).push(e));
                assert(seq![s[0]] + spec_purge(s.skip(1), n, now).push(e) =~= (seq![s[0]]
                    + spec_purge(s.skip(1), n, now)).push(e));
                assert(spec_purge(sp, n, now) =~= spec_purge(s, n, now).push(e));
            } else {
                assert(spec_purge(sp, n, now) =~= spec_purge(s, n, now));
            }
        } else {
            assert(spec_purge(sp, n, now) == spec_purge(sp.skip(1), n, now));
            assert(spec_purge(s, n, now) == spec_purge(s.skip(1), n, now));
        }
    }
}

/// Every pair found after a purge was present before it.
proof fn lemma_purge_has_pair(
    s: Seq<RecordModel>,
    n: Seq<char>,
    now: u64,
    n2: Seq<char>,
    a2: AddrModel,
)
    ensures
        spec_has_pair(spec_purge(s, n, now), n2, a2) ==> spec_has_pair(s, n2, a2),
    decreases s.len(),
{
    if s.len() == 0 {
    } else {
        lemma_purge_has_pair(s.skip(1), n, now, n2, a2);
        if spec_has_pair(spec_purge(s, n, now), n2, a2) {
            let p = spec_purge(s, n, now);
            let i = choose|i: int| 0 <= i < p.len() && p[i].fqdn == n2 && p[i].addr == a2;
            if rec_keeps(s[0], n, now) {
                if i == 0 {
                    assert(s[0].fqdn == n2 && s[0].addr == a2);
                } else {
                    assert(spec_purge(s.skip(1), n, now)[i - 1] == p[i]);
                    assert(spec_has_pair(spec_purge(s.skip(1), n, now), n2, a2));
                    let j = choose|j: int|
                        0 <= j < s.skip(1).len() && s.skip(1)[j].fqdn == n2 && s.skip(1)[j].addr
                            == a2;
                    assert(s[j + 1].fqdn == n2 && s[j + 1].addr == a2);
                }
            } else {
                assert(spec_has_pair(spec_purge(s.skip(1), n, now), n2, a2));
                let j = choose|j: int|
                    0 <= j < s.skip(1).len() && s.skip(1)[j].fqdn == n2 && s.skip(1)[j].addr == a2;
                assert(s[j + 1].fqdn == n2 && s[j + 1].addr == a2);
            }
        }
    }
}

/// Purging preserves registry well-formedness.
proof fn lemma_purge_wf(s: Seq<RecordModel>, n: Seq<char>, now: u64)
    requires
        records_wf(s),
    ensures
        records_wf(spec_purge(s, n, now)),
    decreases s.len(),
{
    if s.len() == 0 {
    } else {
        assert(records_wf(s.skip(1))) by {
            assert(forall|i: int, j: int|
                0 <= i < j < s.skip(1).len() ==> s.skip(1)[i] == s[i + 1] && s.skip(1)[j] == s[j
                    + 1]);
        }
        lemma_purge_wf(s.skip(1), n, now);
        if rec_keeps(s[0], n, now) {
            let rest = spec_purge(s.skip(1), n, now);
            assert(!spec_has_pair(s.skip(1), s[0].fqdn, s[0].addr)) by {
                if spec_has_pair(s.skip(1), s[0].fqdn, s[0].addr) {
                    let j = choose|j: int|
                        0 <= j < s.skip(1).len() && s.skip(1)[j].fqdn == s[0].fqdn
                            && s.skip(1)[j].addr == s[0].addr;
                    assert(s[j + 1].fqdn == s[0].fqdn && s[j + 1].addr == s[0].addr);
                }
            }
            lemma_purge_has_pair(s.skip(1), n, now, s[0].fqdn, s[0].addr);
            let p = seq![s[0]] + rest;
            assert(records_wf(p)) by {
                assert(forall|i: int| 0 <= i < p.len() ==> (#[trigger] p[i].addr).wf()) by {
                    assert(forall|i: int| 1 <= i < p.len() ==> p[i] == rest[i - 1]);
                }
                assert forall|i: int, j: int|
                    0 <= i < j < p.len() implies !(p[i].fqdn == p[j].fqdn && #[trigger] p[i].addr
                    == #[trigger] p[j].addr) by {
                    if i == 0 {
                        assert(p[j] == rest[j - 1]);
                        if p[0].fqdn == p[j].fqdn && p[0].addr == p[j].addr {
                            assert(spec_has_pair(rest, s[0].fqdn, s[0].addr));
                        }
                    } else {
                        assert(p[i] == rest[i - 1] && p[j] == rest[j - 1]);
                    }
                }
            }
            assert(spec_purge(s, n, now) == p);
        }
    }
}

/// Well-formedness survives replacing a record by one with the same pair.
proof fn lemma_wf_update_same_pair(s: Seq<RecordModel>, i: int, e: RecordModel)
    requires
        records_wf(s),
        0 <= i < s.len(),
        s[i].fqdn == e.fqdn,
        s[i].addr == e.addr,
        e.addr.wf(),
    ensures
        records_wf(s.update(i, e)),
{
    let t = s.update(i, e);
    assert forall|x: int, y: int|
        0 <= x < y < t.len() implies !(t[x].fqdn == t[y].fqdn && #[trigger] t[x].addr
        == #[trigger] t[y].addr) by {
        assert(!(s[x].fqdn == s[y].fqdn && s[x].addr == s[y].addr));
    }
}

/// Well-formedness survives removing a record.
proof fn lemma_wf_remove(s: Seq<RecordModel>, i: int)
    requires
        records_wf(s),
        0 <= i < s.len(),
    ensures
        records_wf(s.remove(i)),
{
    let t = s.remove(i);
    assert forall|x: int, y: int|
        0 <= x < y < t.len() implies !(t[x].fqdn == t[y].fqdn && #[trigger] t[x].addr
        == #[trigger] t[y].addr) by {
        let sx: int = if x < i {
            x
        } else {
            x + 1
        };
        let sy: int = if y < i {
            y
        } else {
            y + 1
        };
        assert(t[x] == s[sx] && t[y] == s[sy]);
        assert(!(s[sx].fqdn == s[sy].fqdn && s[sx].addr == s[sy].addr));
    }
    assert forall|x: int| 0 <= x < t.len() implies (#[trigger] t[x].addr).wf() by {
        let sx: int = if x < i {
            x
        } else {
            x + 1
        };
        assert(t[x] == s[sx]);
    }
}

/// When the first matching record stands at index `i`, the first match is
/// that record and removing it removes exactly index `i`.
proof fn lemma_first_match_index(s: Seq<RecordModel>, n: Seq<char>, i: int)
    requires
        0 <= i < s.len(),
        s[i].fqdn == n,
        forall|j: int| 0 <= j < i ==> s[j].fqdn != n,
    ensures
        spec_first_match(s, n) == Some(s[i].addr),
        spec_remove_first(s, n) == s.remove(i),
    decreases i,
{
    if i == 0 {
        assert(spec_remove_first(s, n) =~= s.remove(0));
    } else {
        assert(forall|j: int| 0 <= j < i - 1 ==> s.skip(1)[j] == s[j + 1]);
        assert(s.skip(1)[i - 1] == s[i]);
        lemma_first_match_index(s.skip(1), n, i - 1);
        assert(spec_remove_first(s, n) =~= s.remove(i)) by {
            assert(spec_remove_first(s, n) == seq![s[0]] + spec_remove_first(s.skip(1), n));
            assert(spec_remove_first(s.skip(1), n) == s.skip(1).remove(i - 1));
        }
    }
}

/// A registry without the name yields no match and is left unchanged.
proof fn lemma_first_match_none(s: Seq<RecordModel>, n: Seq<char>)
    requires
        forall|j: int| 0 <= j < s.len() ==> s[j].fqdn != n,
    ensures
        spec_first_match(s, n) is None,
        spec_remove_first(s, n) == s,
    decreases s.len(),
{
    if s.len() == 0 {
    } else {
        assert(forall|j: int| 0 <= j < s.skip(1).len() ==> s.skip(1)[j] == s[j + 1]);
        lemma_first_match_none(s.skip(1), n);
        assert(spec_remove_first(s, n) =~= s);
    }
}

/// A returned match is the address of some record for the name.
proof fn lemma_first_match_has_pair(s: Seq<RecordModel>, n: Seq<char>)
    ensures
        spec_first_match(s, n) matches Some(a) ==> spec_has_pair(s, n, a),
    decreases s.len(),
{
    if s.len() == 0 {
    } else if s[0].fqdn == n {
    } else {
        lemma_first_match_has_pair(s.skip(1), n);
        if spec_first_match(s, n) is Some {
            let a = spec_first_match(s, n)->Some_0;
            let j = choose|j: int|
                0 <= j < s.skip(1).len() && s.skip(1)[j].fqdn == n && s.skip(1)[j].addr == a;
            assert(s[j + 1].fqdn == n && s[j + 1].addr == a);
        }
    }
}

/// Upserting a pair already present replaces the first record holding it.
proof fn lemma_upsert_found(s: Seq<RecordModel>, n: Seq<char>, a: AddrModel, t: u64, i: int)
    requires
        0 <= i < s.len(),
        s[i].fqdn == n,
        s[i].addr == a,
        forall|j: int| 0 <= j < i ==> !(s[j].fqdn == n && s[j].addr == a),
    ensures
        spec_upsert(s, n, a, t) == s.update(i, RecordModel { fqdn: n, addr: a, time: t }),
    decreases i,
{
    if i == 0 {
        assert(spec_upsert(s, n, a, t) =~= s.update(0, RecordModel { fqdn: n, addr: a, time: t }));
    } else {
        assert(forall|j: int| 0 <= j < i - 1 ==> s.skip(1)[j] == s[j + 1]);
        assert(s.skip(1)[i - 1] == s[i]);
        lemma_upsert_found(s.skip(1), n, a, t, i - 1);
        assert(spec_upsert(s, n, a, t) =~= s.update(
            i,
            RecordModel { fqdn: n, addr: a, time: t },
        ));
    }
}

/// Upserting an absent pair appends a fresh record.
proof fn lemma_upsert_absent(s: Seq<RecordModel>, n: Seq<char>, a: AddrModel, t: u64)
    requires
        !spec_has_pair(s, n, a),
    ensures
        spec_upsert(s, n, a, t) == s.push(RecordModel { fqdn: n, addr: a, time: t }),
    decreases s.len(),
{
    if s.len() == 0 {
        assert(spec_upsert(s, n, a, t) =~= s.push(RecordModel { fqdn: n, addr: a, time: t }));
    } else {
        assert(!(s[0].fqdn == n && s[0].addr == a));
        assert(!spec_has_pair(s.skip(1), n, a)) by {
            if spec_has_pair(s.skip(1), n, a) {
                let j = choose|j: int|
                    0 <= j < s.skip(1).len() && s.skip(1)[j].fqdn == n && s.skip(1)[j].addr == a;
                assert(s[j + 1].fqdn == n && s[j + 1].addr == a);
            }
        }
        lemma_upsert_absent(s.skip(1), n, a, t);
        assert(spec_upsert(s, n, a, t) =~= s.push(RecordModel { fqdn: n, addr: a, time: t }));
    }
}

/// A lookup for a name nobody registered keeps every record.
proof fn lemma_purge_no_match(s: Seq<RecordModel>, n: Seq<char>, now: u64)
    requires
        forall|i: int| 0 <= i < s.len() ==> s[i].fqdn != n,
    ensures
        spec_purge(s, n, now) == s,
    decreases s.len(),
{
    if s.len() == 0 {
        assert(spec_purge(s, n, now) =~= s);
    } else {
        assert(forall|j: int| 0 <= j < s.skip(1).len() ==> s.skip(1)[j] == s[j + 1]);
        lemma_purge_no_match(s.skip(1), n, now);
        assert(spec_purge(s, n, now) =~= s);
    }
}

/// After the first record for a name is consumed, no record holds that
/// name-address pair any more.
proof fn lemma_remove_first_no_pair(s: Seq<RecordModel>, n: Seq<char>)
    requires
        records_wf(s),
        spec_first_match(s, n) is Some,
    ensures
        !spec_has_pair(spec_remove_first(s, n), n, spec_first_match(s, n)->Some_0),
    decreases s.len(),
{
    let a = spec_first_match(s, n)->Some_0;
    if s.len() == 0 {
    } else if s[0].fqdn == n {
        assert(a == s[0].addr);
        assert(spec_remove_first(s, n) == s.skip(1));
        if spec_has_pair(s.skip(1), n, a) {
            let j = choose|j: int|
                0 <= j < s.skip(1).len() && s.skip(1)[j].fqdn == n && s.skip(1)[j].addr == a;
            assert(s[j + 1].fqdn == s[0].fqdn && s[j + 1].addr == s[0].addr);
            assert(false);
        }
    } else {
        assert(records_wf(s.skip(1))) by {
            assert(forall|i: int, j: int|
                0 <= i < j < s.skip(1).len() ==> s.skip(1)[i] == s[i + 1] && s.skip(1)[j] == s[j
                    + 1]);
            assert(forall|i: int| 0 <= i < s.skip(1).len() ==> s.skip(1)[i] == s[i + 1]);
        }
        lemma_remove_first_no_pair(s.skip(1), n);
        let rest = spec_remove_first(s.skip(1), n);
        assert(spec_remove_first(s, n) == seq![s[0]] + rest);
        if spec_has_pair(seq![s[0]] + rest, n, a) {
            let j = choose|j: int|
                0 <= j < (seq![s[0]] + rest).len() && (seq![s[0]] + rest)[j].fqdn == n && (
                seq![s[0]] + rest)[j].addr == a;
            assert(j != 0);
            assert((seq![s[0]] + rest)[j] == rest[j - 1]);
            assert(spec_has_pair(rest, n, a));
            assert(false);
        }
    }
}

/// Every record surviving a purge was present before it and would be kept
/// by it: it belongs to another name or is still live.
proof fn lemma_purge_members(s: Seq<RecordModel>, n: Seq<char>, now: u64)
    ensures
        forall|j: int|
            0 <= j < spec_purge(s, n, now).len() ==> s.contains(#[trigger] spec_purge(s, n, now)[j])
                && rec_keeps(spec_purge(s, n, now)[j], n, now),
    decreases s.len(),
{
    if s.len() == 0 {
    } else {
        lemma_purge_members(s.skip(1), n, now);
        let rest = spec_purge(s.skip(1), n, now);
        assert(forall|e: RecordModel| s.skip(1).contains(e) ==> s.contains(e)) by {
            assert forall|e: RecordModel| s.skip(1).contains(e) implies s.contains(e) by {
                let j = choose|j: int| 0 <= j < s.skip(1).len() && s.skip(1)[j] == e;
                assert(s[j + 1] == e);
            }
        }
        if rec_keeps(s[0], n, now) {
            let p = seq![s[0]] + rest;
            assert(spec_purge(s, n, now) == p);
            assert(s.contains(s[0]));
            assert(forall|j: int| 1 <= j < p.len() ==> p[j] == rest[j - 1]);
        }
    }
}

/// A record that has outlived the liveness window is never returned as a
/// match: whatever a lookup returns was the address of a record for that
/// name that was live at the time of the lookup.
pub proof fn lemma_match_is_live(s: Seq<RecordModel>, n: Seq<char>, now: u64)
    ensures
        spec_first_match(spec_purge(s, n, now), n) matches Some(a) ==> exists|i: int|
            0 <= i < s.len() && s[i].fqdn == n && s[i].addr == a && rec_live(#[trigger] s[i], now),
{
    let p = spec_purge(s, n, now);
    lemma_purge_members(s, n, now);
    lemma_first_match_has_pair(p, n);
    if spec_first_match(p, n) is Some {
        let a = spec_first_match(p, n)->Some_0;
        let j = choose|j: int| 0 <= j < p.len() && p[j].fqdn == n && p[j].addr == a;
        assert(s.contains(p[j]) && rec_keeps(p[j], n, now));
        assert(rec_live(p[j], now));
        let i = choose|i: int| 0 <= i < s.len() && s[i] == p[j];
        assert(s[i].fqdn == n && s[i].addr == a && rec_live(s[i], now));
    }
}

/// After a registration for a name with no other records, any lookup
/// within the liveness window returns that address, and an immediate
/// second lookup returns nothing: a record is handed out at most once.
pub proof fn lemma_register_then_select(
    s: Seq<RecordModel>,
    n: Seq<char>,
    a: AddrModel,
    t: u64,
    t2: u64,
)
    requires
        forall|i: int| 0 <= i < s.len() ==> s[i].fqdn != n,
        t2 <= t + LIVENESS_WINDOW,
    ensures
        ({
            let s1 = spec_upsert(s, n, a, t);
            let purged = spec_purge(s1, n, t2);
            &&& spec_first_match(purged, n) == Some(a)
            &&& spec_first_match(spec_purge(spec_remove_first(purged, n), n, t2), n) is None
        }),
{
    let rec = RecordModel { fqdn: n, addr: a, time: t };
    assert(!spec_has_pair(s, n, a));
    lemma_upsert_absent(s, n, a, t);
    let s1 = s.push(rec);
    lemma_purge_push(s, rec, n, t2);
    lemma_purge_no_match(s, n, t2);
    assert(rec_keeps(rec, n, t2));
    let purged = spec_purge(s1, n, t2);
    assert(purged == s.push(rec));
    assert(purged[s.len() as int] == rec);
    assert(forall|j: int| 0 <= j < s.len() ==> purged[j] == s[j]);
    lemma_first_match_index(purged, n, s.len() as int);
    assert(spec_remove_first(purged, n) == purged.remove(s.len() as int));
    assert(purged.remove(s.len() as int) =~= s);
    lemma_purge_no_match(s, n, t2);
    lemma_first_match_none(s, n);
}

/// After a registration for a name with no other records, a lookup past
/// the liveness window returns nothing and leaves no record for the pair.
pub proof fn lemma_expired_record_gone(
    s: Seq<RecordModel>,
    n: Seq<char>,
    a: AddrModel,
    t: u64,
    t2: u64,
)
    requires
        forall|i: int| 0 <= i < s.len() ==> s[i].fqdn != n,
        t2 > t + LIVENESS_WINDOW,
    ensures
        ({
            let s1 = spec_upsert(s, n, a, t);
            let purged = spec_purge(s1, n, t2);
            &&& spec_first_match(purged, n) is None
            &&& !spec_has_pair(purged, n, a)
            &&& purged == s
        }),
{
    let rec = RecordModel { fqdn: n, addr: a, time: t };
    assert(!spec_has_pair(s, n, a));
    lemma_upsert_absent(s, n, a, t);
    lemma_purge_push(s, rec, n, t2);
    lemma_purge_no_match(s, n, t2);
    assert(!rec_keeps(rec, n, t2));
    lemma_first_match_none(s, n);
    assert(!spec_has_pair(s, n, a));
}

/// A record upserted for a pair stands in the registry with its new
/// timestamp, whether or not the pair was present before.
pub proof fn lemma_register_updates(s: Seq<RecordModel>, n: Seq<char>, a: AddrModel, t: u64)
    ensures
        spec_has_pair(spec_upsert(s, n, a, t), n, a),
        exists|i: int|
            0 <= i < spec_upsert(s, n, a, t).len() && spec_upsert(s, n, a, t)[i] == (RecordModel {
                fqdn: n,
                addr: a,
                time: t,
            }),
    decreases s.len(),
{
    let rec = RecordModel { fqdn: n, addr: a, time: t };
    let u = spec_upsert(s, n, a, t);
    if s.len() == 0 {
        assert(u[0] == rec);
    } else if s[0].fqdn == n && s[0].addr == a {
        assert(u[0] == rec);
    } else {
        lemma_register_updates(s.skip(1), n, a, t);
        let u1 = spec_upsert(s.skip(1), n, a, t);
        let i = choose|i: int| 0 <= i < u1.len() && u1[i] == rec;
        assert(u[i + 1] == rec);
        let j = choose|j: int| 0 <= j < u1.len() && u1[j].fqdn == n && u1[j].addr == a;
        assert(u[j + 1].fqdn == n && u[j + 1].addr == a);
    }
}

/// Two successive lookups for one name never hand out the same address:
/// each record is consumed by the lookup that returns it.
pub proof fn lemma_selects_distinct(s: Seq<RecordModel>, n: Seq<char>, now: u64, now2: u64)
    requires
        records_wf(s),
    ensures
        ({
            let p1 = spec_purge(s, n, now);
            match spec_first_match(p1, n) {
                Some(a1) => {
                    let s1 = spec_remove_first(p1, n);
                    let p2 = spec_purge(s1, n, now2);
                    match spec_first_match(p2, n) {
                        Some(a2) => a1 != a2,
                        None => true,
                    }
                },
                None => true,
            }
        }),
{
    let p1 = spec_purge(s, n, now);
    lemma_purge_wf(s, n, now);
    if spec_first_match(p1, n) is Some {
        let a1 = spec_first_match(p1, n)->Some_0;
        let s1 = spec_remove_first(p1, n);
        lemma_remove_first_no_pair(p1, n);
        let p2 = spec_purge(s1, n, now2);
        lemma_purge_has_pair(s1, n, now2, n, a1);
        lemma_first_match_has_pair(p2, n);
        if spec_first_match(p2, n) is Some {
            let a2 = spec_first_match(p2, n)->Some_0;
            assert(spec_has_pair(p2, n, a2));
            if a1 == a2 {
                assert(spec_has_pair(p2, n, a1));
                assert(false);
            }
        }
    }
}

} // verus!
