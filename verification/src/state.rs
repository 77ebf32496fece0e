//! Stream state shared between the filter and its pins.
use vstd::prelude::*;

use std::collections::VecDeque;

verus! {

/// The uncompressed input format negotiated on the input pin.
#[derive(Clone, Debug)]
pub struct FormatInfo {
    pub width: i32,
    pub height: i32,
    pub bpp: u32,
    pub bottom_up: bool,
    pub pix_fmt: String,
    /// Frame duration in 100 ns units.
    pub frame_dur: i64,
}

pub struct FormatView {
    pub width: i32,
    pub height: i32,
    pub bpp: u32,
    pub bottom_up: bool,
    pub pix_fmt: Seq<char>,
    pub frame_dur: i64,
}

impl View for FormatInfo {
    type V = FormatView;

    open spec fn view(&self) -> FormatView {
        FormatView {
            width: self.width,
            height: self.height,
            bpp: self.bpp,
            bottom_up: self.bottom_up,
            pix_fmt: self.pix_fmt@,
            frame_dur: self.frame_dur,
        }
    }
}

/// The filter's run state, as reported by `GetState`.
#[derive(Clone, Copy, PartialEq, Eq, Structural, Debug)]
pub enum FilterState {
    Stopped,
    Paused,
    Running,
}

/// What `EndOfStream` on the input pin has to do.
#[derive(Clone, Copy, PartialEq, Eq, Structural, Debug)]
pub enum EosAction {
    /// EndOfStream was already forwarded downstream: do nothing.
    Ignore,
    /// The encoder is still starting: hold the EndOfStream until the
    /// buffered frames have been written.
    Defer,
    /// Flush the encoder, deliver its packets and forward EndOfStream.
    Forward,
}

/// The state of one stream through the filter: the format, the encoder
/// choice, the timestamps waiting for their encoded packets and the
/// end-of-stream hand-off.
pub struct Core {
    pub fmt: Option<FormatInfo>,
    pub fourcc: u32,
    pub out_mux: String,
    pub codec: String,
    pub started: bool,
    pub first_pkt: bool,
    /// Start times of the frames written to the encoder whose packets have
    /// not been delivered yet, oldest first.
    pub ts_queue: VecDeque<i64>,
    pub last_ts: i64,
    pub state: FilterState,
    pub completed: bool,
    /// Frames that arrived before the encoder was ready, oldest first.
    pub pending_frames: Vec<Vec<u8>>,
    /// EndOfStream arrived before the encoder was started.
    pub eos_pending: bool,
    /// EndOfStream has been forwarded downstream.
    pub eos_sent: bool,
    pub avi_path: String,
    pub extra_path: String,
}

pub struct CoreView {
    pub fmt: Option<FormatView>,
    pub fourcc: u32,
    pub out_mux: Seq<char>,
    pub codec: Seq<char>,
    pub started: bool,
    pub first_pkt: bool,
    pub queue: Seq<i64>,
    pub last_ts: i64,
    pub state: FilterState,
    pub completed: bool,
    pub pending: Seq<Seq<u8>>,
    pub eos_pending: bool,
    pub eos_sent: bool,
    pub avi_path: Seq<char>,
    pub extra_path: Seq<char>,
}

impl View for Core {
    type V = CoreView;

    open spec fn view(&self) -> CoreView {
        CoreView {
            fmt: match self.fmt {
                Some(f) => Some(f@),
                None => None,
            },
            fourcc: self.fourcc,
            out_mux: self.out_mux@,
            codec: self.codec@,
            started: self.started,
            first_pkt: self.first_pkt,
            queue: self.ts_queue@,
            last_ts: self.last_ts,
            state: self.state,
            completed: self.completed,
            pending: self.pending_frames@.map_values(|f: Vec<u8>| f@),
            eos_pending: self.eos_pending,
            eos_sent: self.eos_sent,
            avi_path: self.avi_path@,
            extra_path: self.extra_path@,
        }
    }
}

/// The state of a new filter: stopped, nothing negotiated.
pub open spec fn initial_core() -> CoreView {
    CoreView {
        fmt: None,
        fourcc: 0,
        out_mux: Seq::empty(),
        codec: Seq::empty(),
        started: false,
        first_pkt: true,
        queue: Seq::empty(),
        last_ts: 0,
        state: FilterState::Stopped,
        completed: false,
        pending: Seq::empty(),
        eos_pending: false,
        eos_sent: false,
        avi_path: Seq::empty(),
        extra_path: Seq::empty(),
    }
}

/// The frame duration of the negotiated format, 1 without one.
pub open spec fn frame_dur_of(c: CoreView) -> i64 {
    match c.fmt {
        Some(f) => f.frame_dur,
        None => 1,
    }
}

/// `Run`: frames are taken from now on; the next packet is the first.
pub open spec fn run_spec(c: CoreView) -> CoreView {
    CoreView {
        started: true,
        first_pkt: true,
        queue: Seq::empty(),
        eos_sent: false,
        state: FilterState::Running,
        ..c
    }
}

/// `Stop`: frames are dropped; queued times, held frames and the
/// end-of-stream flags are cleared.
pub open spec fn stop_spec(c: CoreView) -> CoreView {
    CoreView {
        started: false,
        queue: Seq::empty(),
        first_pkt: true,
        pending: Seq::empty(),
        eos_pending: false,
        eos_sent: false,
        state: FilterState::Stopped,
        ..c
    }
}

/// `BeginFlush` on the input pin.
pub open spec fn flush_spec(c: CoreView) -> CoreView {
    CoreView {
        queue: Seq::empty(),
        first_pkt: true,
        pending: Seq::empty(),
        eos_pending: false,
        eos_sent: false,
        ..c
    }
}

/// `NewSegment` on the input pin: a new segment may end with its own
/// EndOfStream.
pub open spec fn segment_spec(c: CoreView) -> CoreView {
    CoreView { eos_sent: false, ..c }
}

/// The start time of a received frame: its own, or one frame after the
/// last one.
pub open spec fn sample_start(c: CoreView, time: Option<i64>) -> int {
    match time {
        Some(t) => t as int,
        None => c.last_ts + frame_dur_of(c),
    }
}

/// Whether a received frame is taken: the filter runs and the input
/// format is known.
pub open spec fn takes_samples(c: CoreView) -> bool {
    c.started && c.fmt is Some
}

/// `Receive`: a taken frame's start time joins the queue.
pub open spec fn stamp_spec(c: CoreView, time: Option<i64>) -> CoreView {
    if takes_samples(c) {
        let t = sample_start(c, time) as i64;
        CoreView { queue: c.queue.push(t), last_ts: t, ..c }
    } else {
        c
    }
}

/// The start time of the next delivered packet: the oldest queued frame
/// time, or one frame after the last one.
pub open spec fn packet_start(c: CoreView) -> int {
    if c.queue.len() > 0 {
        c.queue[0] as int
    } else {
        c.last_ts + frame_dur_of(c)
    }
}

/// Delivering a packet takes its time from the queue.
pub open spec fn deliver_spec(c: CoreView) -> CoreView {
    CoreView {
        queue: if c.queue.len() > 0 { c.queue.drop_first() } else { c.queue },
        last_ts: packet_start(c) as i64,
        first_pkt: false,
        ..c
    }
}

/// `EndOfStream` on the input pin, given whether the encoder is running.
pub open spec fn eos_spec(c: CoreView, has_encoder: bool) -> (CoreView, EosAction) {
    if c.eos_sent {
        (CoreView { completed: true, ..c }, EosAction::Ignore)
    } else if !has_encoder {
        (CoreView { completed: true, eos_pending: true, ..c }, EosAction::Defer)
    } else {
        (CoreView { completed: true, ..c }, EosAction::Forward)
    }
}

/// A frame held until the encoder is ready.
pub open spec fn hold_spec(c: CoreView, frame: Seq<u8>) -> CoreView {
    CoreView { pending: c.pending.push(frame), ..c }
}

/// Taking the held frames and the deferred EndOfStream once the encoder
/// runs.
pub open spec fn take_spec(c: CoreView) -> (CoreView, Seq<Seq<u8>>, bool) {
    (CoreView { pending: Seq::empty(), eos_pending: false, ..c }, c.pending, c.eos_pending)
}

/// EndOfStream was forwarded downstream.
pub open spec fn sent_spec(c: CoreView) -> CoreView {
    CoreView { eos_sent: true, ..c }
}

/// Receiving frames with the given start times, in order.
pub open spec fn stamp_all(c: CoreView, ts: Seq<i64>) -> CoreView
    decreases ts.len(),
{
    if ts.len() == 0 {
        c
    } else {
        stamp_spec(stamp_all(c, ts.drop_last()), Some(ts.last()))
    }
}

/// Delivering `n` packets.
pub open spec fn deliver_n(c: CoreView, n: nat) -> CoreView
    decreases n,
{
    if n == 0 {
        c
    } else {
        deliver_spec(deliver_n(c, (n - 1) as nat))
    }
}

/// Holding frames, in order, while the encoder starts.
pub open spec fn hold_all(c: CoreView, frames: Seq<Seq<u8>>) -> CoreView
    decreases frames.len(),
{
    if frames.len() == 0 {
        c
    } else {
        hold_spec(hold_all(c, frames.drop_last()), frames.last())
    }
}

proof fn lemma_stamp_all(c: CoreView, ts: Seq<i64>)
    requires
        takes_samples(c),
    ensures
        takes_samples(stamp_all(c, ts)),
        stamp_all(c, ts).queue == c.queue + ts,
        stamp_all(c, ts).fmt == c.fmt,
    decreases ts.len(),
{
    if ts.len() > 0 {
        lemma_stamp_all(c, ts.drop_last());
        assert(c.queue + ts =~= (c.queue + ts.drop_last()).push(ts.last()));
    } else {
        assert(c.queue + ts =~= c.queue);
    }
}

proof fn lemma_deliver_n(c: CoreView, n: nat)
    requires
        n <= c.queue.len(),
    ensures
        deliver_n(c, n).queue == c.queue.skip(n as int),
    decreases n,
{
    if n > 0 {
        lemma_deliver_n(c, (n - 1) as nat);
        assert(c.queue.skip((n - 1) as int).drop_first() =~= c.queue.skip(n as int));
    } else {
        assert(c.queue.skip(0) =~= c.queue);
    }
}

/// Once EndOfStream has been forwarded downstream, a further EndOfStream
/// is ignored, whether or not the encoder runs.
pub proof fn law_end_of_stream_forwarded_once(c: CoreView, first_has_encoder: bool, next_has_encoder: bool)
    requires
        eos_spec(c, first_has_encoder).1 == EosAction::Forward,
    ensures
        eos_spec(sent_spec(eos_spec(c, first_has_encoder).0), next_has_encoder).1 == EosAction::Ignore,
        eos_spec(sent_spec(eos_spec(c, first_has_encoder).0), next_has_encoder).0.eos_sent,
{
}

/// Running, stopping, flushing and a new segment each allow the next
/// EndOfStream to be forwarded again.
pub proof fn law_end_of_stream_rearmed(c: CoreView, has_encoder: bool)
    ensures
        eos_spec(run_spec(c), has_encoder).1 != EosAction::Ignore,
        eos_spec(stop_spec(c), has_encoder).1 != EosAction::Ignore,
        eos_spec(flush_spec(c), has_encoder).1 != EosAction::Ignore,
        eos_spec(segment_spec(c), has_encoder).1 != EosAction::Ignore,
{
}

/// An EndOfStream that arrives before the encoder is ready is not lost: it
/// is handed over together with the held frames once the encoder runs.
pub proof fn law_deferred_end_of_stream_released(c: CoreView)
    requires
        !c.eos_sent,
    ensures
        eos_spec(c, false).1 == EosAction::Defer,
        take_spec(eos_spec(c, false).0).2,
        !take_spec(take_spec(eos_spec(c, false).0).0).2,
{
}

/// Frames that arrive while the encoder starts are all handed to it, in
/// the order they arrived.
pub proof fn law_held_frames_kept_in_order(c: CoreView, frames: Seq<Seq<u8>>)
    ensures
        take_spec(hold_all(c, frames)).1 == c.pending + frames,
        take_spec(hold_all(c, frames)).0.pending.len() == 0,
    decreases frames.len(),
{
    if frames.len() > 0 {
        law_held_frames_kept_in_order(c, frames.drop_last());
        assert(c.pending + frames =~= (c.pending + frames.drop_last()).push(frames.last()));
    } else {
        assert(c.pending + frames =~= c.pending);
    }
}

/// While the filter takes frames, the encoded packets carry the start
/// times of the frames received, in order: the i-th packet delivered after
/// frames with times `ts` were received starts at `ts[i]`.
pub proof fn law_packets_take_frame_times(c: CoreView, ts: Seq<i64>, i: nat)
    requires
        takes_samples(c),
        c.queue.len() == 0,
        i < ts.len(),
    ensures
        packet_start(deliver_n(stamp_all(c, ts), i)) == ts[i as int],
{
    lemma_stamp_all(c, ts);
    let d = stamp_all(c, ts);
    assert(d.queue =~= ts);
    lemma_deliver_n(d, i);
}

/// What can happen to the filter's state between two resets (`Run`,
/// `Stop`, `BeginFlush` and `NewSegment` each clear `eos_sent`).
pub enum CoreEvent {
    /// A frame arrives, with its start time if it has one.
    Sample(Option<i64>),
    /// A packet is delivered downstream.
    Deliver,
    /// EndOfStream arrives on the input pin; whether the encoder runs.
    EndOfStream(bool),
    /// A frame is held while the encoder starts.
    Hold(Seq<u8>),
    /// The held frames are taken by the encoder.
    Take,
    /// EndOfStream is forwarded downstream if it still has to be (see
    /// `eos_needed`), and recorded (`mark_eos_sent`) when the peer accepts
    /// it; whether the peer accepts it.
    PeerEndOfStream(bool),
}

/// The state after an event, and whether the downstream peer received
/// EndOfStream by it.
pub open spec fn core_step(c: CoreView, e: CoreEvent) -> (CoreView, bool) {
    match e {
        CoreEvent::Sample(t) => (stamp_spec(c, t), false),
        CoreEvent::Deliver => (deliver_spec(c), false),
        CoreEvent::EndOfStream(has_encoder) => (eos_spec(c, has_encoder).0, false),
        CoreEvent::Hold(f) => (hold_spec(c, f), false),
        CoreEvent::Take => (take_spec(c).0, false),
        CoreEvent::PeerEndOfStream(accepted) => if c.eos_sent {
            (c, false)
        } else if accepted {
            (sent_spec(c), true)
        } else {
            (c, false)
        },
    }
}

/// The state after the events, in order.
pub open spec fn run_events(c: CoreView, es: Seq<CoreEvent>) -> CoreView
    decreases es.len(),
{
    if es.len() == 0 {
        c
    } else {
        core_step(run_events(c, es.drop_last()), es.last()).0
    }
}

/// How many times the downstream peer received EndOfStream during the
/// events.
pub open spec fn peer_eos_count(c: CoreView, es: Seq<CoreEvent>) -> nat
    decreases es.len(),
{
    if es.len() == 0 {
        0
    } else {
        peer_eos_count(c, es.drop_last()) + if core_step(run_events(c, es.drop_last()), es.last()).1 {
            1nat
        } else {
            0nat
        }
    }
}

/// Between two resets the downstream peer receives EndOfStream at most
/// once, whatever frames, packets and repeated EndOfStreams come in
/// between; not at all if it had it before; and once it has had it, the
/// state says so.
pub proof fn law_peer_gets_end_of_stream_once(c: CoreView, es: Seq<CoreEvent>)
    ensures
        peer_eos_count(c, es) <= 1,
        c.eos_sent ==> peer_eos_count(c, es) == 0,
        run_events(c, es).eos_sent == (c.eos_sent || peer_eos_count(c, es) == 1),
    decreases es.len(),
{
    if es.len() > 0 {
        law_peer_gets_end_of_stream_once(c, es.drop_last());
    }
}

impl Core {
    pub fn new() -> (r: Core)
        ensures
            r@ == initial_core(),
    {
        let r = Core {
            fmt: None,
            fourcc: 0,
            out_mux: String::new(),
            codec: String::new(),
            started: false,
            first_pkt: true,
            ts_queue: VecDeque::new(),
            last_ts: 0,
            state: FilterState::Stopped,
            completed: false,
            pending_frames: Vec::new(),
            eos_pending: false,
            eos_sent: false,
            avi_path: String::new(),
            extra_path: String::new(),
        };
        assert(r@.pending =~= Seq::<Seq<u8>>::empty());
        r
    }

    /// `Run`: mark the filter running first, so that frames arriving while
    /// the encoder starts are held rather than dropped.
    pub fn run(&mut self)
        ensures
            final(self)@ == run_spec(old(self)@),
    {
        self.started = true;
        self.first_pkt = true;
        self.ts_queue.clear();
        self.eos_sent = false;
        self.state = FilterState::Running;
    }

    /// `Run` could not start the encoder: frames are no longer taken, and
    /// the rest of the state stays as `run` left it.
    pub fn start_failed(&mut self)
        ensures
            final(self)@ == (CoreView { started: false, ..old(self)@ }),
            !takes_samples(final(self)@),
    {
        self.started = false;
    }

    pub fn pause(&mut self)
        ensures
            final(self)@ == (CoreView { state: FilterState::Paused, ..old(self)@ }),
    {
        self.state = FilterState::Paused;
    }

    pub fn stop(&mut self)
        ensures
            final(self)@ == stop_spec(old(self)@),
    {
        self.started = false;
        self.ts_queue.clear();
        self.first_pkt = true;
        self.pending_frames = Vec::new();
        self.eos_pending = false;
        self.eos_sent = false;
        self.state = FilterState::Stopped;
        assert(self@.pending =~= Seq::<Seq<u8>>::empty());
    }

    pub fn begin_flush(&mut self)
        ensures
            final(self)@ == flush_spec(old(self)@),
    {
        self.ts_queue.clear();
        self.first_pkt = true;
        self.pending_frames = Vec::new();
        self.eos_pending = false;
        self.eos_sent = false;
        assert(self@.pending =~= Seq::<Seq<u8>>::empty());
    }

    pub fn new_segment(&mut self)
        ensures
            final(self)@ == segment_spec(old(self)@),
    {
        self.eos_sent = false;
    }

    /// `Receive`: whether the frame is taken, and if so the width, height
    /// and bits per pixel to cut it to; its start time is queued.
    pub fn accept_sample(&mut self, time: Option<i64>) -> (r: Option<(i32, i32, u32)>)
        requires
            takes_samples(old(self)@) && time is None ==> i64::MIN <= sample_start(old(self)@, time)
                <= i64::MAX,
        ensures
            final(self)@ == stamp_spec(old(self)@, time),
            match r {
                None => !takes_samples(old(self)@),
                Some((w, h, bpp)) => {
                    &&& takes_samples(old(self)@)
                    &&& old(self)@.fmt matches Some(f) && w == f.width && h == f.height && bpp == f.bpp
                },
            },
    {
        if !self.started {
            return None;
        }
        let (width, height, bpp, frame_dur) = match &self.fmt {
            Some(f) => (f.width, f.height, f.bpp, f.frame_dur),
            None => {
                return None;
            },
        };
        let start = match time {
            Some(t) => t,
            None => self.last_ts + frame_dur,
        };
        self.ts_queue.push_back(start);
        self.last_ts = start;
        Some((width, height, bpp))
    }

    /// The start and stop times of the next encoded packet, and whether it
    /// is the first since the stream (re)started (a sync point and a
    /// discontinuity).
    pub fn next_packet_times(&mut self) -> (r: (i64, i64, bool))
        requires
            i64::MIN <= packet_start(old(self)@) <= i64::MAX,
            i64::MIN <= packet_start(old(self)@) + frame_dur_of(old(self)@) <= i64::MAX,
        ensures
            r.0 == packet_start(old(self)@),
            r.1 == packet_start(old(self)@) + frame_dur_of(old(self)@),
            r.2 == old(self)@.first_pkt,
            final(self)@ == deliver_spec(old(self)@),
    {
        let frame_dur = match &self.fmt {
            Some(f) => f.frame_dur,
            None => 1,
        };
        let start = match self.ts_queue.pop_front() {
            Some(t) => t,
            None => self.last_ts + frame_dur,
        };
        self.last_ts = start;
        let stop = start + frame_dur;
        let first = self.first_pkt;
        self.first_pkt = false;
        (start, stop, first)
    }

    /// Whether the next packet's start and stop times fit an `i64`.
    pub fn packet_times_fit(&self) -> (r: bool)
        ensures
            r == (i64::MIN <= packet_start(self@) <= i64::MAX && i64::MIN <= packet_start(self@)
                + frame_dur_of(self@) <= i64::MAX),
    {
        let frame_dur: i64 = match &self.fmt {
            Some(f) => f.frame_dur,
            None => 1,
        };
        let start: i128 = if self.ts_queue.len() > 0 {
            self.ts_queue[0] as i128
        } else {
            self.last_ts as i128 + frame_dur as i128
        };
        let stop: i128 = start + frame_dur as i128;
        i64::MIN as i128 <= start && start <= i64::MAX as i128 && i64::MIN as i128 <= stop && stop
            <= i64::MAX as i128
    }

    /// Whether the start time of a received frame fits an `i64`.
    pub fn sample_time_fits(&self, time: Option<i64>) -> (r: bool)
        ensures
            r == (takes_samples(self@) && time is None ==> i64::MIN <= sample_start(self@, time)
                <= i64::MAX),
    {
        match (&self.fmt, time) {
            (Some(f), None) => {
                if !self.started {
                    return true;
                }
                let t: i128 = self.last_ts as i128 + f.frame_dur as i128;
                i64::MIN as i128 <= t && t <= i64::MAX as i128
            },
            _ => true,
        }
    }

    /// `EndOfStream` on the input pin.
    pub fn end_of_stream(&mut self, has_encoder: bool) -> (r: EosAction)
        ensures
            (final(self)@, r) == eos_spec(old(self)@, has_encoder),
    {
        self.completed = true;
        if self.eos_sent {
            return EosAction::Ignore;
        }
        if !has_encoder {
            self.eos_pending = true;
            return EosAction::Defer;
        }
        EosAction::Forward
    }

    /// Holds a frame that arrived before the encoder was ready.
    pub fn hold_frame(&mut self, frame: Vec<u8>)
        ensures
            final(self)@ == hold_spec(old(self)@, frame@),
    {
        self.pending_frames.push(frame);
        assert(self@.pending =~= old(self)@.pending.push(frame@));
    }

    /// Takes the held frames, oldest first, and whether an EndOfStream was
    /// deferred.
    pub fn take_pending(&mut self) -> (r: (Vec<Vec<u8>>, bool))
        ensures
            (final(self)@, r.0@.map_values(|f: Vec<u8>| f@), r.1) == take_spec(old(self)@),
    {
        let mut frames: Vec<Vec<u8>> = Vec::new();
        std::mem::swap(&mut frames, &mut self.pending_frames);
        let eos = self.eos_pending;
        self.eos_pending = false;
        assert(self@.pending =~= Seq::<Seq<u8>>::empty());
        (frames, eos)
    }

    /// Whether EndOfStream still has to be forwarded downstream.
    pub fn eos_needed(&self) -> (r: bool)
        ensures
            r == !self@.eos_sent,
    {
        !self.eos_sent
    }

    /// Records that EndOfStream was forwarded downstream.
    pub fn mark_eos_sent(&mut self)
        ensures
            final(self)@ == sent_spec(old(self)@),
    {
        self.eos_sent = true;
    }
}

} // verus!
