//! Full-duplex byte relay between the local console and the session's byte
//! stream, as a state machine: the caller reads from whichever open side has
//! data first, reports the chunk, and performs the action it gets back.
use vstd::prelude::*;

verus! {

/// Where a tunnel stands.
#[derive(Clone, Copy, Debug, PartialEq, Eq, Structural)]
pub enum TunnelPhase {
    /// Both sides are still sending.
    Open,
    /// At least one side has ended; the other is still relayed until it ends,
    /// then the stream is closed and drained.
    Closing,
    /// The final drain is done.
    Closed,
}

/// What the caller observed.
#[derive(Debug)]
pub enum TunnelEvent {
    /// A read of the local input returned these bytes; none means end-of-data.
    Local(Vec<u8>),
    /// A read of the remote stream returned these bytes; none means end-of-data.
    Remote(Vec<u8>),
    /// A read or write failed: both sides count as ended.
    Failed,
    /// The closing marker was written and the final drain read is over.
    Drained,
}

/// What the caller is to do.
#[derive(Debug)]
pub enum TunnelAction {
    /// Write these bytes to the remote stream and flush it.
    ToRemote(Vec<u8>),
    /// Write these bytes to the local output and flush it.
    ToLocal(Vec<u8>),
    /// Nothing to forward; keep reading the sides still open.
    Wait,
    /// Both sides ended: write this marker to the remote stream, flush, make
    /// one drain read, ignoring errors, and report `Drained`.
    Finish(Vec<u8>),
    /// The tunnel is closed.
    Stop,
}

/// An event in mathematical terms.
pub enum Input {
    Local(Seq<u8>),
    Remote(Seq<u8>),
    Failed,
    Drained,
}

/// An action in mathematical terms.
pub enum Output {
    ToRemote(Seq<u8>),
    ToLocal(Seq<u8>),
    Wait,
    Finish(Seq<u8>),
    Stop,
}

impl View for TunnelEvent {
    type V = Input;

    open spec fn view(&self) -> Input {
        match self {
            TunnelEvent::Local(b) => Input::Local(b@),
            TunnelEvent::Remote(b) => Input::Remote(b@),
            TunnelEvent::Failed => Input::Failed,
            TunnelEvent::Drained => Input::Drained,
        }
    }
}

impl View for TunnelAction {
    type V = Output;

    open spec fn view(&self) -> Output {
        match self {
            TunnelAction::ToRemote(b) => Output::ToRemote(b@),
            TunnelAction::ToLocal(b) => Output::ToLocal(b@),
            TunnelAction::Wait => Output::Wait,
            TunnelAction::Finish(b) => Output::Finish(b@),
            TunnelAction::Stop => Output::Stop,
        }
    }
}

/// The bytes of `</stream:stream>`, which ends the remote stream.
pub open spec fn stream_end() -> Seq<u8> {
    seq![60u8, 47u8, 115u8, 116u8, 114u8, 101u8, 97u8, 109u8, 58u8, 115u8, 116u8, 114u8, 101u8, 97u8, 109u8, 62u8]
}

/// The state of a tunnel: which sides may still send, and whether the final
/// drain is done.
pub struct Tunnel {
    local_open: bool,
    remote_open: bool,
    closed: bool,
}

/// A tunnel in mathematical terms.
pub struct TunnelView {
    pub local_open: bool,
    pub remote_open: bool,
    pub closed: bool,
}

impl View for Tunnel {
    type V = TunnelView;

    closed spec fn view(&self) -> TunnelView {
        TunnelView { local_open: self.local_open, remote_open: self.remote_open, closed: self.closed }
    }
}

/// The phase of a tunnel state.
pub open spec fn phase_of(v: TunnelView) -> TunnelPhase {
    if v.closed {
        TunnelPhase::Closed
    } else if v.local_open && v.remote_open {
        TunnelPhase::Open
    } else {
        TunnelPhase::Closing
    }
}

/// The events a tunnel state can take: a read only from a side still open,
/// a failure while one is open, the drain once both have ended.
pub open spec fn admits(v: TunnelView, i: Input) -> bool {
    !v.closed && match i {
        Input::Local(_) => v.local_open,
        Input::Remote(_) => v.remote_open,
        Input::Failed => v.local_open || v.remote_open,
        Input::Drained => !v.local_open && !v.remote_open,
    }
}

/// What both sides having ended calls for.
pub open spec fn ended_action(v: TunnelView) -> Output {
    if !v.local_open && !v.remote_open {
        Output::Finish(stream_end())
    } else {
        Output::Wait
    }
}

/// One transition: a chunk is forwarded to the opposite side; an empty read
/// ends its side; once both have ended the stream is closed and drained.
pub open spec fn next_state(v: TunnelView, i: Input) -> (TunnelView, Output) {
    match i {
        Input::Local(b) => if b.len() > 0 {
            (v, Output::ToRemote(b))
        } else {
            let w = TunnelView { local_open: false, ..v };
            (w, ended_action(w))
        },
        Input::Remote(b) => if b.len() > 0 {
            (v, Output::ToLocal(b))
        } else {
            let w = TunnelView { remote_open: false, ..v };
            (w, ended_action(w))
        },
        Input::Failed => (
            TunnelView { local_open: false, remote_open: false, ..v },
            Output::Finish(stream_end()),
        ),
        Input::Drained => (TunnelView { closed: true, ..v }, Output::Stop),
    }
}

/// Bytes that an action writes to the remote stream, the closing marker aside.
pub open spec fn to_remote(o: Output) -> Seq<u8> {
    match o {
        Output::ToRemote(b) => b,
        _ => Seq::empty(),
    }
}

/// Bytes that an action writes to the local output.
pub open spec fn to_local(o: Output) -> Seq<u8> {
    match o {
        Output::ToLocal(b) => b,
        _ => Seq::empty(),
    }
}

/// Every event of `evs` is admitted by the state reached before it.
pub open spec fn admissible(v: TunnelView, evs: Seq<Input>) -> bool
    decreases evs.len(),
{
    evs.len() == 0 || (admits(v, evs[0]) && admissible(next_state(v, evs[0]).0, evs.drop_first()))
}

/// The state reached after `evs`, with everything written to the remote
/// stream and to the local output on the way.
pub open spec fn run(v: TunnelView, evs: Seq<Input>) -> (TunnelView, Seq<u8>, Seq<u8>)
    decreases evs.len(),
{
    if evs.len() == 0 {
        (v, Seq::empty(), Seq::empty())
    } else {
        let (w, o) = next_state(v, evs[0]);
        let (f, r, l) = run(w, evs.drop_first());
        (f, to_remote(o) + r, to_local(o) + l)
    }
}

/// Everything read from the local input, in order.
pub open spec fn local_data(evs: Seq<Input>) -> Seq<u8>
    decreases evs.len(),
{
    if evs.len() == 0 {
        Seq::empty()
    } else {
        let rest = local_data(evs.drop_first());
        match evs[0] {
            Input::Local(b) => b + rest,
            _ => rest,
        }
    }
}

/// Everything read from the remote stream, in order.
pub open spec fn remote_data(evs: Seq<Input>) -> Seq<u8>
    decreases evs.len(),
{
    if evs.len() == 0 {
        Seq::empty()
    } else {
        let rest = remote_data(evs.drop_first());
        match evs[0] {
            Input::Remote(b) => b + rest,
            _ => rest,
        }
    }
}

/// Some read of the local input in `evs` came back empty.
pub open spec fn local_ends(evs: Seq<Input>) -> bool
    decreases evs.len(),
{
    evs.len() > 0 && (evs[0] == Input::Local(Seq::empty()) || local_ends(evs.drop_first()))
}

/// Some read of the remote stream in `evs` came back empty.
pub open spec fn remote_ends(evs: Seq<Input>) -> bool
    decreases evs.len(),
{
    evs.len() > 0 && (evs[0] == Input::Remote(Seq::empty()) || remote_ends(evs.drop_first()))
}

/// Whatever the interleaving of the two sides, the tunnel forwards all that
/// the local input sends to the remote stream and all that the remote stream
/// sends to the local output, each in its own order; once both sides have
/// signalled end-of-data, neither is open any longer.
pub proof fn lemma_tunnel_relays(v: TunnelView, evs: Seq<Input>)
    requires
        admissible(v, evs),
    ensures
        run(v, evs).1 == local_data(evs),
        run(v, evs).2 == remote_data(evs),
        (!v.local_open || local_ends(evs)) ==> !run(v, evs).0.local_open,
        (!v.remote_open || remote_ends(evs)) ==> !run(v, evs).0.remote_open,
    decreases evs.len(),
{
    if evs.len() > 0 {
        let w = next_state(v, evs[0]).0;
        lemma_tunnel_relays(w, evs.drop_first());
        match evs[0] {
            Input::Local(b) => {
                if b.len() == 0 {
                    assert(b =~= Seq::<u8>::empty());
                }
            },
            Input::Remote(b) => {
                if b.len() == 0 {
                    assert(b =~= Seq::<u8>::empty());
                }
            },
            _ => {},
        }
        assert(run(v, evs).1 =~= local_data(evs));
        assert(run(v, evs).2 =~= remote_data(evs));
    }
}

impl Tunnel {
    /// A tunnel with both sides open.
    pub fn new() -> (r: Tunnel)
        ensures
            r@ == (TunnelView { local_open: true, remote_open: true, closed: false }),
            phase_of(r@) == TunnelPhase::Open,
    {
        Tunnel { local_open: true, remote_open: true, closed: false }
    }

    /// Where the tunnel stands.
    pub fn phase(&self) -> (r: TunnelPhase)
        ensures
            r == phase_of(self@),
    {
        if self.closed {
            TunnelPhase::Closed
        } else if self.local_open && self.remote_open {
            TunnelPhase::Open
        } else {
            TunnelPhase::Closing
        }
    }

    /// Whether the local input is still to be read.
    pub fn reads_local(&self) -> (r: bool)
        ensures
            r == (!self@.closed && self@.local_open),
    {
        !self.closed && self.local_open
    }

    /// Whether the remote stream is still to be read.
    pub fn reads_remote(&self) -> (r: bool)
        ensures
            r == (!self@.closed && self@.remote_open),
    {
        !self.closed && self.remote_open
    }

    /// Whether `ev` may be reported now.
    pub fn accepts(&self, ev: &TunnelEvent) -> (r: bool)
        ensures
            r == admits(self@, ev@),
    {
        if self.closed {
            return false;
        }
        match ev {
            TunnelEvent::Local(_) => self.local_open,
            TunnelEvent::Remote(_) => self.remote_open,
            TunnelEvent::Failed => self.local_open || self.remote_open,
            TunnelEvent::Drained => !self.local_open && !self.remote_open,
        }
    }

    fn after_end(&self) -> (r: TunnelAction)
        ensures
            r@ == ended_action(self@),
    {
        if !self.local_open && !self.remote_open {
            TunnelAction::Finish(stream_end_bytes())
        } else {
            TunnelAction::Wait
        }
    }

    /// Take one event and say what to do about it.
    pub fn step(&mut self, ev: TunnelEvent) -> (r: TunnelAction)
        requires
            admits(old(self)@, ev@),
        ensures
            (final(self)@, r@) == next_state(old(self)@, ev@),
    {
        match ev {
            TunnelEvent::Local(b) => {
                if b.len() > 0 {
                    TunnelAction::ToRemote(b)
                } else {
                    self.local_open = false;
                    self.after_end()
                }
            },
            TunnelEvent::Remote(b) => {
                if b.len() > 0 {
                    TunnelAction::ToLocal(b)
                } else {
                    self.remote_open = false;
                    self.after_end()
                }
            },
            TunnelEvent::Failed => {
                self.local_open = false;
                self.remote_open = false;
                TunnelAction::Finish(stream_end_bytes())
            },
            TunnelEvent::Drained => {
                self.closed = true;
                TunnelAction::Stop
            },
        }
    }
}

/// The marker that ends the remote stream.
pub fn stream_end_bytes() -> (r: Vec<u8>)
    ensures
        r@ == stream_end(),
{
    let r: Vec<u8> = vec![60u8, 47u8, 115u8, 116u8, 114u8, 101u8, 97u8, 109u8, 58u8, 115u8, 116u8, 114u8, 101u8, 97u8, 109u8, 62u8];
    assert(r@ =~= stream_end());
    r
}

} // verus!
