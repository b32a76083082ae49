//! The session state machine: who the current peer is, whether the camera
//! is advertising or streaming, and which chunk of which frame goes out
//! next. The caller performs the link and camera work that each decision
//! names and hands the outcome back.
use vstd::prelude::*;
use crate::chunker::{ceil_div, chunk, chunk_of, total_chunks};
use crate::protocol::{
    chunk_encoding, decode, decoding, encode_frame_chunk, CHUNK_DATA_SIZE, Message, MessageView,
};

verus! {

/// A link-layer address.
pub type PeerId = [u8; 6];

#[derive(Debug, Clone, Copy, PartialEq, Eq, Structural)]
pub enum State {
    Advertising,
    Streaming,
}

/// What the receive path reports to the session.
#[derive(Debug, Clone, Copy, PartialEq, Eq)]
pub enum Event {
    Connect(PeerId),
    Disconnect,
}

/// What the caller must do to the link's peer table after an event.
#[derive(Debug, Clone, Copy, PartialEq, Eq)]
pub enum Action {
    /// Register this address as the unicast peer.
    AddPeer(PeerId),
    /// Unregister this address.
    RemovePeer(PeerId),
    /// Nothing: the event does not apply in the current state.
    Ignore,
}

/// What the send loop does next for the frame in progress.
#[derive(Debug, PartialEq, Eq)]
pub enum ChunkStep {
    /// Send this packet to the peer, then wait for the link's completion
    /// signal and report it with `Session::chunk_sent`.
    Send(Vec<u8>),
    /// A chunk is still in flight: wait for its completion signal.
    Wait,
    /// Every chunk has gone out: release the frame buffer.
    Done,
    /// No frame is in progress (none was begun, or the peer left).
    Idle,
}

/// Progress through the chunks of the frame being sent.
pub ghost struct TransferView {
    pub frame_len: nat,
    pub total: nat,
    pub next: nat,
    pub in_flight: bool,
}

pub ghost struct SessionView {
    pub state: State,
    pub peer: Option<PeerId>,
    pub frame_id: u16,
    pub transfer: Option<TransferView>,
}

struct Transfer {
    frame_len: usize,
    total: u16,
    next: u16,
    in_flight: bool,
}

pub struct Session {
    state: State,
    peer: Option<PeerId>,
    frame_id: u16,
    transfer: Option<Transfer>,
}

impl View for Session {
    type V = SessionView;

    closed spec fn view(&self) -> SessionView {
        SessionView {
            state: self.state,
            peer: self.peer,
            frame_id: self.frame_id,
            transfer: match self.transfer {
                Some(t) => Some(TransferView {
                    frame_len: t.frame_len as nat,
                    total: t.total as nat,
                    next: t.next as nat,
                    in_flight: t.in_flight,
                }),
                None => None,
            },
        }
    }
}

/// A frame can be sent when it is not empty and its chunk count fits the
/// 16-bit chunk fields.
pub open spec fn frame_fits(frame_len: nat) -> bool {
    frame_len >= 1 && ceil_div(frame_len, CHUNK_DATA_SIZE as nat) <= u16::MAX
}

/// A peer is held exactly while streaming; a transfer runs only while
/// streaming, over a frame that fits, and never past its last chunk.
pub open spec fn session_wf(s: SessionView) -> bool {
    &&& (s.state == State::Streaming <==> s.peer is Some)
    &&& (s.transfer matches Some(t) ==> {
        &&& s.state == State::Streaming
        &&& frame_fits(t.frame_len)
        &&& t.total == ceil_div(t.frame_len, CHUNK_DATA_SIZE as nat)
        &&& t.next <= t.total
    })
}

/// The peers the link's table holds, as the session's state determines them.
pub open spec fn registered_peers(s: SessionView) -> Set<PeerId> {
    match s.peer {
        Some(p) => set![p],
        None => Set::empty(),
    }
}

/// The peer table after the caller carries out `a`.
pub open spec fn apply_action(peers: Set<PeerId>, a: Action) -> Set<PeerId> {
    match a {
        Action::AddPeer(p) => peers.insert(p),
        Action::RemovePeer(p) => peers.remove(p),
        Action::Ignore => peers,
    }
}

/// The session after an event, and what the caller must do.
pub open spec fn event_step(s: SessionView, e: Event) -> (SessionView, Action) {
    match e {
        Event::Connect(p) => if s.state == State::Advertising {
            (SessionView { state: State::Streaming, peer: Some(p), frame_id: 0, transfer: None }, Action::AddPeer(p))
        } else {
            (s, Action::Ignore)
        },
        Event::Disconnect => if s.state == State::Streaming {
            (SessionView { state: State::Advertising, peer: None, frame_id: s.frame_id, transfer: None },
             Action::RemovePeer(s.peer.unwrap()))
        } else {
            (s, Action::Ignore)
        },
    }
}

/// The frame id that follows `id`, wrapping to 0 after 65535.
pub open spec fn next_frame_id(id: u16) -> u16 {
    if id == u16::MAX { 0 } else { (id + 1) as u16 }
}

/// The event that an inbound datagram from `src` raises, if any.
pub open spec fn event_of_spec(src: PeerId, data: Seq<u8>) -> Option<Event> {
    match decoding(data) {
        Some(MessageView::Connect) => Some(Event::Connect(src)),
        Some(MessageView::Disconnect) => Some(Event::Disconnect),
        _ => None,
    }
}

/// Translates an inbound datagram into a session event; anything else is dropped.
pub fn event_of(src: PeerId, data: &[u8]) -> (r: Option<Event>)
    ensures
        r == event_of_spec(src, data@),
{
    match decode(data) {
        Some(Message::Connect) => Some(Event::Connect(src)),
        Some(Message::Disconnect) => Some(Event::Disconnect),
        _ => None,
    }
}

/// The id of the frame that follows `k` completed frames of a session.
pub open spec fn frame_id_after(k: nat) -> u16
    decreases k,
{
    if k == 0 { 0 } else { next_frame_id(frame_id_after((k - 1) as nat)) }
}

proof fn lemma_frame_id_after_mod(k: nat)
    ensures
        frame_id_after(k) == k % 65536,
    decreases k,
{
    if k > 0 {
        lemma_frame_id_after_mod((k - 1) as nat);
    }
}

/// Within one session frame ids run 0, 1, ..., 65535 with no gap and no
/// repeat, and the frame after those 65536 frames is numbered 0 again.
pub proof fn lemma_frame_id_wraps()
    ensures
        forall|k: nat| k < 65536 ==> #[trigger] frame_id_after(k) == k,
        forall|k: nat| k + 1 < 65536 ==> #[trigger] frame_id_after(k + 1) == frame_id_after(k) + 1,
        frame_id_after(65536) == 0,
{
    assert forall|k: nat| k < 65536 implies #[trigger] frame_id_after(k) == k by {
        lemma_frame_id_after_mod(k);
    }
    assert forall|k: nat| k + 1 < 65536 implies #[trigger] frame_id_after(k + 1) == frame_id_after(k) + 1 by {
        lemma_frame_id_after_mod(k);
        lemma_frame_id_after_mod(k + 1);
    }
    lemma_frame_id_after_mod(65536);
}

/// A connect while advertising starts streaming with exactly one peer
/// registered and the frame id back at 0; a disconnect while streaming
/// returns to advertising with no peer registered and abandons the frame in
/// progress, so none of its remaining chunks is sent. Whatever the event, a
/// peer table kept by carrying out each action holds exactly the session's
/// peer.
pub proof fn lemma_session_transitions(s: SessionView, e: Event)
    requires
        session_wf(s),
    ensures
        session_wf(event_step(s, e).0),
        apply_action(registered_peers(s), event_step(s, e).1) == registered_peers(event_step(s, e).0),
        s.state == State::Advertising && e is Connect ==> {
            &&& event_step(s, e).0.state == State::Streaming
            &&& event_step(s, e).1 == Action::AddPeer(e->Connect_0)
            &&& registered_peers(event_step(s, e).0).len() == 1
            &&& event_step(s, e).0.frame_id == 0
        },
        s.state == State::Streaming && e is Disconnect ==> {
            &&& event_step(s, e).0.state == State::Advertising
            &&& registered_peers(event_step(s, e).0).len() == 0
            &&& event_step(s, e).0.transfer is None
        },
{
    let (t, a) = event_step(s, e);
    match e {
        Event::Connect(p) => {
            if s.state == State::Advertising {
                assert(registered_peers(s).insert(p) =~= set![p]);
                assert(set![p].len() == 1) by {
                    assert(set![p] =~= Set::<PeerId>::empty().insert(p));
                }
            }
        },
        Event::Disconnect => {
            if s.state == State::Streaming {
                let p = s.peer.unwrap();
                assert(set![p].remove(p) =~= Set::<PeerId>::empty());
            }
        },
    }
}

impl Session {
    pub open spec fn wf(&self) -> bool {
        session_wf(self@)
    }

    /// A session that advertises, with no peer and frame id 0.
    pub fn new() -> (r: Session)
        ensures
            r.wf(),
            r@ == (SessionView { state: State::Advertising, peer: None, frame_id: 0, transfer: None }),
    {
        Session { state: State::Advertising, peer: None, frame_id: 0, transfer: None }
    }

    pub fn state(&self) -> (r: State)
        ensures
            r == self@.state,
    {
        self.state
    }

    /// The current peer; present exactly while streaming.
    pub fn peer(&self) -> (r: Option<PeerId>)
        ensures
            r == self@.peer,
    {
        self.peer
    }

    /// The id the current or next frame is sent under.
    pub fn frame_id(&self) -> (r: u16)
        ensures
            r == self@.frame_id,
    {
        self.frame_id
    }

    /// Whether a frame is being sent.
    pub fn is_sending(&self) -> (r: bool)
        ensures
            r == self@.transfer is Some,
    {
        self.transfer.is_some()
    }

    /// Consumes a connection event. A connect while advertising starts a new
    /// session with that peer and frame id 0; a disconnect while streaming
    /// ends the session and abandons the frame in progress. Any other event
    /// is ignored.
    pub fn handle_event(&mut self, e: Event) -> (a: Action)
        requires
            old(self).wf(),
        ensures
            final(self).wf(),
            (final(self)@, a) == event_step(old(self)@, e),
    {
        match e {
            Event::Connect(p) => {
                if self.state == State::Advertising {
                    self.state = State::Streaming;
                    self.peer = Some(p);
                    self.frame_id = 0;
                    self.transfer = None;
                    Action::AddPeer(p)
                } else {
                    Action::Ignore
                }
            },
            Event::Disconnect => {
                if self.state == State::Streaming {
                    let p = self.peer.unwrap();
                    self.state = State::Advertising;
                    self.peer = None;
                    self.transfer = None;
                    Action::RemovePeer(p)
                } else {
                    Action::Ignore
                }
            },
        }
    }

    /// Starts sending a frame of `frame_len` bytes. Refused (and nothing
    /// changes) unless the session is streaming with no frame in progress
    /// and the frame fits; the caller then skips the frame.
    pub fn begin_frame(&mut self, frame_len: usize) -> (ok: bool)
        requires
            old(self).wf(),
        ensures
            final(self).wf(),
            ok == (old(self)@.state == State::Streaming && old(self)@.transfer is None && frame_fits(frame_len as nat)),
            ok ==> final(self)@ == (SessionView {
                transfer: Some(TransferView {
                    frame_len: frame_len as nat,
                    total: ceil_div(frame_len as nat, CHUNK_DATA_SIZE as nat),
                    next: 0,
                    in_flight: false,
                }),
                ..old(self)@
            }),
            !ok ==> final(self)@ == old(self)@,
    {
        if self.state != State::Streaming || self.transfer.is_some() || frame_len == 0 {
            return false;
        }
        let n = total_chunks(frame_len, CHUNK_DATA_SIZE);
        if n > u16::MAX as usize {
            return false;
        }
        self.transfer = Some(Transfer { frame_len, total: n as u16, next: 0, in_flight: false });
        true
    }

    /// The send loop's next move for the frame in progress. At most one
    /// chunk is in flight: after a `Send` the answer is `Wait` until
    /// `chunk_sent` reports the completion signal. Chunks go out in
    /// increasing index order; once the last one has completed the transfer
    /// ends, the frame id moves on (wrapping) and the answer is `Done`.
    pub fn next_chunk(&mut self, frame: &[u8]) -> (r: ChunkStep)
        requires
            old(self).wf(),
            old(self)@.transfer matches Some(t) ==> frame@.len() == t.frame_len,
        ensures
            final(self).wf(),
            match old(self)@.transfer {
                None => r == ChunkStep::Idle && final(self)@ == old(self)@,
                Some(t) => if t.in_flight {
                    r == ChunkStep::Wait && final(self)@ == old(self)@
                } else if t.next < t.total {
                    &&& r matches ChunkStep::Send(packet)
                    &&& packet@ == chunk_encoding(
                        old(self)@.frame_id,
                        t.next as u16,
                        t.total as u16,
                        chunk_of(frame@, CHUNK_DATA_SIZE as nat, t.next as int),
                    )
                    &&& final(self)@ == (SessionView {
                        transfer: Some(TransferView { next: t.next + 1, in_flight: true, ..t }),
                        ..old(self)@
                    })
                } else {
                    &&& r == ChunkStep::Done
                    &&& final(self)@ == (SessionView {
                        frame_id: next_frame_id(old(self)@.frame_id),
                        transfer: None,
                        ..old(self)@
                    })
                },
            },
    {
        match &self.transfer {
            None => ChunkStep::Idle,
            Some(t) => {
                if t.in_flight {
                    ChunkStep::Wait
                } else if t.next < t.total {
                    let idx = t.next;
                    let total = t.total;
                    let data = chunk(frame, CHUNK_DATA_SIZE, idx as usize);
                    let packet = encode_frame_chunk(self.frame_id, idx, total, data);
                    let len = t.frame_len;
                    self.transfer = Some(Transfer { frame_len: len, total, next: idx + 1, in_flight: true });
                    ChunkStep::Send(packet)
                } else {
                    self.transfer = None;
                    self.frame_id = if self.frame_id == u16::MAX { 0 } else { self.frame_id + 1 };
                    ChunkStep::Done
                }
            },
        }
    }

    /// Records the link's send-completion signal: the chunk in flight, if
    /// any, has gone out. A signal with nothing in flight changes nothing.
    pub fn chunk_sent(&mut self)
        requires
            old(self).wf(),
        ensures
            final(self).wf(),
            final(self)@ == (match old(self)@.transfer {
                Some(t) => SessionView { transfer: Some(TransferView { in_flight: false, ..t }), ..old(self)@ },
                None => old(self)@,
            }),
    {
        match &self.transfer {
            Some(t) => {
                let (len, total, next) = (t.frame_len, t.total, t.next);
                self.transfer = Some(Transfer { frame_len: len, total, next, in_flight: false });
            },
            None => {},
        }
    }
}

} // verus!
