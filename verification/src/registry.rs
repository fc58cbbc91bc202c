//! Sessions and the shared session registry.
//!
//! A `Session` is the server-side record of one connected participant: its
//! display name, the 32-byte key its handshake negotiated, and an opaque
//! handle naming its writable transport half (the socket itself lives with
//! the caller).  The `Registry` is the one shared mutable structure of the
//! server: sessions are registered on join — duplicate names are allowed —
//! and deregistered by name on disconnect, which removes every match.
//!
//! A broadcast is computed here as a plan: one `Delivery` per registered
//! session, in registry order, holding the frames to write to that session.
//! Each session's frames are encrypted under its own key, so no delivery
//! depends on any other session, and the caller can write them out
//! independently — one recipient's failure costs nobody else anything.
//! The sender's own delivery carries two frames, an encrypted zero-length
//! acknowledgement and then its own copy of the message; every other
//! delivery carries the one message frame.

use vstd::prelude::*;

use crate::bytes::{bytes_eq, copy_bytes};
use crate::cipher::{decrypt_spec, encrypt_chunk};
use crate::frame::{encode_frame, frame_spec, lemma_frame_round_trip, parse_frame_spec};
use vstd::pervasive::unreached;

verus! {

/// One connected, named, keyed participant.  `writer` is an opaque handle
/// by which the caller finds the session's writable transport half.
pub struct Session {
    /// The display name the participant joined under.
    pub name: Vec<u8>,
    /// The 32-byte key negotiated by this session's handshake.
    pub key: Vec<u8>,
    /// The caller's handle for this session's writable transport half.
    pub writer: u64,
}

impl Session {
    /// The key has the one length the cipher takes.
    pub open spec fn wf(&self) -> bool {
        self.key@.len() == 32
    }

    /// `other` records the same participant: same name, key and writer.
    pub open spec fn same_record(&self, other: &Session) -> bool {
        self.name@ == other.name@ && self.key@ == other.key@ && self.writer == other.writer
    }

    /// A fresh copy of this record.
    pub fn duplicate(&self) -> (r: Session)
        ensures
            r.same_record(self),
            r.wf() == self.wf(),
    {
        Session { name: copy_bytes(&self.name), key: copy_bytes(&self.key), writer: self.writer }
    }
}

/// `ss` with every session of the given name removed, order kept.
pub open spec fn without_name(ss: Seq<Session>, name: Seq<u8>) -> Seq<Session>
    decreases ss.len(),
{
    if ss.len() == 0 {
        Seq::empty()
    } else if ss[0].name@ == name {
        without_name(ss.skip(1), name)
    } else {
        seq![ss[0]] + without_name(ss.skip(1), name)
    }
}

/// No session of the removed name survives `without_name`.
pub proof fn lemma_without_name_excludes(ss: Seq<Session>, name: Seq<u8>)
    ensures
        forall|i: int|
            0 <= i < without_name(ss, name).len() ==> (#[trigger] without_name(ss, name)[i]).name@
                != name,
    decreases ss.len(),
{
    if ss.len() > 0 {
        lemma_without_name_excludes(ss.skip(1), name);
        let w = without_name(ss, name);
        let tail = without_name(ss.skip(1), name);
        assert forall|i: int| 0 <= i < w.len() implies (#[trigger] w[i]).name@ != name by {
            if ss[0].name@ == name {
                assert(w[i] == tail[i]);
            } else if i > 0 {
                assert(w[i] == tail[i - 1]);
            }
        }
    }
}

/// The shared collection of live sessions, in registration order.
///
/// The caller is responsible for mutual exclusion around a value of this
/// type; the methods here say what each operation does to the contents.
pub struct Registry {
    sessions: Vec<Session>,
}

impl Registry {
    /// The registered sessions, in order.
    pub closed spec fn sessions_seq(&self) -> Seq<Session> {
        self.sessions@
    }

    /// Every registered session is well-formed.
    pub closed spec fn wf(&self) -> bool {
        forall|i: int| 0 <= i < self.sessions@.len() ==> (#[trigger] self.sessions@[i]).wf()
    }

    /// An empty registry.
    pub fn new() -> (r: Registry)
        ensures
            r.sessions_seq() == Seq::<Session>::empty(),
            r.wf(),
    {
        Registry { sessions: Vec::new() }
    }

    /// How many sessions are registered.
    pub fn count(&self) -> (n: usize)
        ensures
            n == self.sessions_seq().len(),
    {
        self.sessions.len()
    }

    /// Register a session.  Nothing checks the name against those already
    /// present: duplicate names may coexist.
    pub fn register(&mut self, session: Session)
        requires
            session.wf(),
            old(self).wf(),
        ensures
            final(self).sessions_seq() == old(self).sessions_seq().push(session),
            final(self).wf(),
    {
        self.sessions.push(session);
        proof {
            assert forall|i: int| 0 <= i < self.sessions@.len() implies (#[trigger] self
                .sessions@[i]).wf() by {
                if i < old(self).sessions@.len() {
                    assert(old(self).sessions@[i].wf());
                }
            }
        }
    }

    /// Deregister every session of the given name, keeping the others in
    /// order.  Idempotent: a name that is not present removes nothing.
    pub fn deregister(&mut self, name: &Vec<u8>)
        requires
            old(self).wf(),
        ensures
            final(self).sessions_seq() == without_name(old(self).sessions_seq(), name@),
            final(self).wf(),
            forall|i: int|
                0 <= i < final(self).sessions_seq().len() ==> (#[trigger] final(
                    self
                ).sessions_seq()[i]).name@ != name@,
    {
        let ghost orig = self.sessions@;
        let mut kept: Vec<Session> = Vec::new();
        while self.sessions.len() > 0
            invariant
                without_name(orig, name@) == kept@ + without_name(self.sessions@, name@),
                forall|i: int| 0 <= i < kept@.len() ==> (#[trigger] kept@[i]).wf(),
                forall|i: int| 0 <= i < self.sessions@.len() ==> (#[trigger] self.sessions@[i]).wf(),
            decreases self.sessions@.len(),
        {
            let ghost before = self.sessions@;
            let s = self.sessions.remove(0);
            proof {
                assert(s == before[0]);
                assert(self.sessions@ =~= before.skip(1));
            }
            if !bytes_eq(&s.name, name) {
                proof {
                    assert(without_name(before, name@) =~= seq![s] + without_name(
                        self.sessions@,
                        name@,
                    ));
                }
                kept.push(s);
                proof {
                    assert(without_name(orig, name@) =~= kept@ + without_name(
                        self.sessions@,
                        name@,
                    ));
                }
            }
        }
        proof {
            assert(without_name(self.sessions@, name@) =~= Seq::<Session>::empty());
            assert(without_name(orig, name@) =~= kept@);
        }
        self.sessions = kept;
        proof {
            lemma_without_name_excludes(orig, name@);
        }
    }

    /// A copy of the current sessions, to iterate outside whatever guard
    /// protects the registry: same names, keys and writers, in order.
    pub fn snapshot(&self) -> (r: Vec<Session>)
        requires
            self.wf(),
        ensures
            r@.len() == self.sessions_seq().len(),
            forall|i: int|
                0 <= i < r@.len() ==> (#[trigger] r@[i]).same_record(&self.sessions_seq()[i]),
            forall|i: int| 0 <= i < r@.len() ==> (#[trigger] r@[i]).wf(),
    {
        let mut r: Vec<Session> = Vec::new();
        let mut i: usize = 0;
        while i < self.sessions.len()
            invariant
                i <= self.sessions@.len(),
                self.wf(),
                r@.len() == i,
                forall|k: int|
                    0 <= k < i ==> (#[trigger] r@[k]).same_record(&self.sessions_seq()[k]),
                forall|k: int| 0 <= k < i ==> (#[trigger] r@[k]).wf(),
            decreases self.sessions@.len() - i,
        {
            assert(self.sessions@[i as int].wf());
            r.push(self.sessions[i].duplicate());
            i = i + 1;
        }
        r
    }
}

/// One recipient's share of a broadcast: the frames to write, in order, to
/// the transport half `writer` names.
#[derive(Debug, PartialEq, Eq)]
pub struct Delivery {
    /// The recipient session's display name.
    pub name: Vec<u8>,
    /// The recipient session's writer handle.
    pub writer: u64,
    /// The frames to write to that session, in order.
    pub frames: Vec<Vec<u8>>,
}

/// `f` is one whole frame whose payload decrypts under `key` to `payload`.
pub open spec fn frame_for(f: Seq<u8>, key: Seq<u8>, payload: Seq<u8>) -> bool {
    (parse_frame_spec(f) matches Some(pc) && decrypt_spec(key, pc.0) == Some(payload) && pc.1
        == f.len())
}

/// What `d` must hold for session `s` when `line` is broadcast by `sender`:
/// the sender's own session gets an encrypted zero-length acknowledgement
/// and then its copy of the line; every other session gets the one line
/// frame, encrypted under its own key.
pub open spec fn delivery_ok(d: Delivery, s: Session, sender: Seq<u8>, line: Seq<u8>) -> bool {
    &&& d.name@ == s.name@
    &&& d.writer == s.writer
    &&& if s.name@ == sender {
        d.frames@.len() == 2 && frame_for(d.frames@[0]@, s.key@, Seq::<u8>::empty()) && frame_for(
            d.frames@[1]@,
            s.key@,
            line,
        )
    } else {
        d.frames@.len() == 1 && frame_for(d.frames@[0]@, s.key@, line)
    }
}

/// A whole broadcast plan: one delivery per session, in order.
pub open spec fn deliveries_ok(
    ds: Seq<Delivery>,
    ss: Seq<Session>,
    sender: Seq<u8>,
    line: Seq<u8>,
) -> bool {
    ds.len() == ss.len() && (forall|i: int|
        0 <= i < ds.len() ==> delivery_ok(#[trigger] ds[i], ss[i], sender, line))
}

/// `payload` encrypted under `key` and framed for the wire: one whole
/// frame whose blob decrypts back to `payload` under `key`.
pub fn seal_frame(payload: &Vec<u8>, key: &Vec<u8>) -> (r: Vec<u8>)
    requires
        key@.len() == 32,
        payload@.len() + 64 <= u32::MAX,
    ensures
        frame_for(r@, key@, payload@),
{
    let blob = match encrypt_chunk(payload, key) {
        Ok(blob) => blob,
        Err(_) => unreached(),
    };
    let frame = encode_frame(&blob);
    proof {
        lemma_frame_round_trip(blob@, Seq::<u8>::empty());
        assert(frame_spec(blob@) + Seq::<u8>::empty() =~= frame_spec(blob@));
    }
    frame
}

/// The broadcast plan for `line` sent by `sender` over the sessions of a
/// snapshot: one delivery per session in snapshot order, each session's
/// frames encrypted under its own key — the sender's an acknowledgement
/// then the line, everyone else's the line alone.  No delivery reads
/// another session's record, so writing one out can fail without touching
/// the rest.
pub fn broadcast_deliveries(sessions: &Vec<Session>, sender: &Vec<u8>, line: &Vec<u8>) -> (r: Vec<
    Delivery,
>)
    requires
        forall|i: int| 0 <= i < sessions@.len() ==> (#[trigger] sessions@[i]).wf(),
        line@.len() + 64 <= u32::MAX,
    ensures
        deliveries_ok(r@, sessions@, sender@, line@),
{
    let mut ds: Vec<Delivery> = Vec::new();
    let mut i: usize = 0;
    while i < sessions.len()
        invariant
            i <= sessions@.len(),
            ds@.len() == i,
            forall|k: int| 0 <= k < sessions@.len() ==> (#[trigger] sessions@[k]).wf(),
            line@.len() + 64 <= u32::MAX,
            forall|k: int|
                0 <= k < i ==> delivery_ok(#[trigger] ds@[k], sessions@[k], sender@, line@),
        decreases sessions@.len() - i,
    {
        let s = &sessions[i];
        let mut frames: Vec<Vec<u8>> = Vec::new();
        if bytes_eq(&s.name, sender) {
            let empty: Vec<u8> = Vec::new();
            let ack = seal_frame(&empty, &s.key);
            proof {
                assert(empty@ =~= Seq::<u8>::empty());
            }
            frames.push(ack);
        }
        let msg = seal_frame(line, &s.key);
        frames.push(msg);
        let d = Delivery { name: copy_bytes(&s.name), writer: s.writer, frames };
        assert(delivery_ok(d, sessions@[i as int], sender@, line@));
        ds.push(d);
        i = i + 1;
    }
    ds
}

/// Ack semantics, read off a broadcast plan: the sender's session is handed
/// exactly two frames — an encrypted empty payload, then its own copy of
/// the line — and every other session exactly one frame carrying the line.
pub proof fn lemma_ack_semantics(
    ds: Seq<Delivery>,
    ss: Seq<Session>,
    sender: Seq<u8>,
    line: Seq<u8>,
    i: int,
)
    requires
        deliveries_ok(ds, ss, sender, line),
        0 <= i < ss.len(),
    ensures
        ss[i].name@ == sender ==> ds[i].frames@.len() == 2 && frame_for(
            ds[i].frames@[0]@,
            ss[i].key@,
            Seq::<u8>::empty(),
        ) && frame_for(ds[i].frames@[1]@, ss[i].key@, line),
        ss[i].name@ != sender ==> ds[i].frames@.len() == 1 && frame_for(
            ds[i].frames@[0]@,
            ss[i].key@,
            line,
        ),
{
}

/// Broadcast isolation: one recipient failing costs nobody else anything.
/// Each delivery of a plan is built from its own session's record alone,
/// so striking any one session and its delivery from the plan — a dead
/// writer, say — leaves a plan that is still exactly right for everyone
/// else.
pub proof fn lemma_broadcast_isolation(
    ds: Seq<Delivery>,
    ss: Seq<Session>,
    sender: Seq<u8>,
    line: Seq<u8>,
    failed: int,
)
    requires
        deliveries_ok(ds, ss, sender, line),
        0 <= failed < ds.len(),
    ensures
        deliveries_ok(ds.remove(failed), ss.remove(failed), sender, line),
{
    let ds2 = ds.remove(failed);
    let ss2 = ss.remove(failed);
    assert forall|i: int| 0 <= i < ds2.len() implies delivery_ok(
        #[trigger] ds2[i],
        ss2[i],
        sender,
        line,
    ) by {
        if i < failed {
            assert(ds2[i] == ds[i] && ss2[i] == ss[i]);
        } else {
            assert(ds2[i] == ds[i + 1] && ss2[i] == ss[i + 1]);
        }
        assert(delivery_ok(ds2[i], ss2[i], sender, line));
    }
}

/// Disconnect cleanup: a broadcast planned after a name was deregistered
/// holds no delivery addressed to that name.
pub proof fn lemma_disconnect_cleanup(
    ds: Seq<Delivery>,
    ss: Seq<Session>,
    gone: Seq<u8>,
    sender: Seq<u8>,
    line: Seq<u8>,
)
    requires
        forall|i: int| 0 <= i < ss.len() ==> (#[trigger] ss[i]).name@ != gone,
        deliveries_ok(ds, ss, sender, line),
    ensures
        forall|i: int| 0 <= i < ds.len() ==> (#[trigger] ds[i]).name@ != gone,
{
    assert forall|i: int| 0 <= i < ds.len() implies (#[trigger] ds[i]).name@ != gone by {
        assert(delivery_ok(ds[i], ss[i], sender, line));
    }
}

} // verus!
