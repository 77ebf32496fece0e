//! The bookkeeping of the output pin's own memory allocator and of the
//! samples it hands out: buffer properties, commit state, sample times,
//! flags and data lengths. The sample bytes live with the COM objects.
use vstd::prelude::*;

verus! {

/// `AM_GBF_NOTASYNCPOINT`: the buffer asked for is not a sync point.
pub const AM_GBF_NOTASYNCPOINT: u32 = 2;

/// Allocator properties (`ALLOCATOR_PROPERTIES`): buffer count, buffer
/// size, alignment and prefix, in bytes.
#[derive(Clone, Copy, PartialEq, Eq, Structural, Debug)]
pub struct AllocProps {
    pub buffers: i32,
    pub size: i32,
    pub align: i32,
    pub prefix: i32,
}

/// At least one.
pub open spec fn at_least_one(v: i32) -> int {
    if v < 1 {
        1
    } else {
        v as int
    }
}

/// The properties the allocator settles on for a request: at least one
/// buffer of at least one byte, an alignment of at least one, and the
/// buffer size rounded up to a multiple of the alignment.
pub open spec fn settled(req: AllocProps) -> AllocProps {
    let align = at_least_one(req.align);
    let size = at_least_one(req.size);
    AllocProps {
        buffers: at_least_one(req.buffers) as i32,
        size: ((size + align - 1) / align * align) as i32,
        align: align as i32,
        prefix: req.prefix,
    }
}

/// The allocator's answer is stable: the buffer size it settles on is a
/// multiple of the alignment and no smaller than asked, and asking again
/// with what it answered changes nothing.
pub proof fn law_settled_properties_stable(req: AllocProps)
    requires
        at_least_one(req.size) + at_least_one(req.align) <= i32::MAX,
    ensures
        settled(req).size % settled(req).align == 0,
        settled(req).size >= req.size,
        settled(settled(req)) == settled(req),
{
    let a = at_least_one(req.align);
    let s = at_least_one(req.size);
    let q = (s + a - 1) / a;
    assert(s <= q * a <= s + a - 1 && (q * a) % a == 0) by (nonlinear_arith)
        requires
            a >= 1,
            s >= 1,
            q == (s + a - 1) / a,
    ;
    let m = q * a;
    assert((m + a - 1) / a * a == m) by (nonlinear_arith)
        requires
            a >= 1,
            m % a == 0,
            m >= 1,
    ;
}

/// Whether a request can be settled: its size, rounded up to its
/// alignment, fits an `i32`.
pub fn request_in_range(req: AllocProps) -> (r: bool)
    ensures
        r == (at_least_one(req.size) + at_least_one(req.align) <= i32::MAX),
{
    let size: i64 = if req.size < 1 {
        1
    } else {
        req.size as i64
    };
    let align: i64 = if req.align < 1 {
        1
    } else {
        req.align as i64
    };
    size + align <= i32::MAX as i64
}

/// Why a buffer could not be had.
#[derive(Clone, Copy, PartialEq, Eq, Structural, Debug)]
pub enum AllocError {
    /// The allocator is not committed (`VFW_E_NOT_COMMITTED`).
    NotCommitted,
}

/// The state of one media sample: its buffer size and prefix, the length
/// of the data in it, its times and flags.
pub struct MediaSample {
    total: usize,
    prefix: usize,
    actual: i32,
    start: Option<i64>,
    stop: Option<i64>,
    sync: bool,
    preroll: bool,
    discontinuity: bool,
}

pub struct SampleView {
    pub total: nat,
    pub prefix: nat,
    pub actual: i32,
    pub start: Option<i64>,
    pub stop: Option<i64>,
    pub sync: bool,
    pub preroll: bool,
    pub discontinuity: bool,
}

impl View for MediaSample {
    type V = SampleView;

    closed spec fn view(&self) -> SampleView {
        SampleView {
            total: self.total as nat,
            prefix: self.prefix as nat,
            actual: self.actual,
            start: self.start,
            stop: self.stop,
            sync: self.sync,
            preroll: self.preroll,
            discontinuity: self.discontinuity,
        }
    }
}

/// The usable size of a sample: its buffer without the prefix.
pub open spec fn usable(s: SampleView) -> i32 {
    (s.total - s.prefix) as i32
}

impl MediaSample {
    /// The buffer holds its prefix.
    pub closed spec fn wf(&self) -> bool {
        self.prefix <= self.total
    }

    /// A sample of `total` bytes whose data starts after `prefix` bytes: no
    /// data, no times, a sync point.
    pub fn new(total: usize, prefix: usize) -> (r: MediaSample)
        requires
            prefix <= total,
        ensures
            r.wf(),
            r@ == (SampleView {
                total: total as nat,
                prefix: prefix as nat,
                actual: 0,
                start: None,
                stop: None,
                sync: true,
                preroll: false,
                discontinuity: false,
            }),
    {
        MediaSample {
            total,
            prefix,
            actual: 0,
            start: None,
            stop: None,
            sync: true,
            preroll: false,
            discontinuity: false,
        }
    }

    /// The usable size (`GetSize`).
    pub fn size(&self) -> (r: i32)
        requires
            self.wf(),
        ensures
            r == usable(self@),
    {
        (self.total - self.prefix) as i32
    }

    /// The whole buffer, prefix included.
    pub fn total(&self) -> (r: usize)
        ensures
            r == self@.total,
    {
        self.total
    }

    /// Where the data starts in the buffer.
    pub fn prefix(&self) -> (r: usize)
        ensures
            r == self@.prefix,
    {
        self.prefix
    }

    /// The start and stop times, when both are set (`GetTime`).
    pub fn time(&self) -> (r: Option<(i64, i64)>)
        ensures
            r == (match (self@.start, self@.stop) {
                (Some(s), Some(e)) => Some((s, e)),
                _ => None,
            }),
    {
        match (self.start, self.stop) {
            (Some(s), Some(e)) => Some((s, e)),
            _ => None,
        }
    }

    /// Sets the times (`SetTime`); without a start time both are cleared.
    pub fn set_time(&mut self, start: Option<i64>, stop: Option<i64>)
        ensures
            final(self)@ == (SampleView {
                start,
                stop: if start is Some {
                    stop
                } else {
                    None
                },
                ..old(self)@
            }),
            final(self).wf() == old(self).wf(),
    {
        match start {
            None => {
                self.start = None;
                self.stop = None;
            },
            Some(s) => {
                self.start = Some(s);
                self.stop = stop;
            },
        }
    }

    pub fn is_sync_point(&self) -> (r: bool)
        ensures
            r == self@.sync,
    {
        self.sync
    }

    pub fn set_sync_point(&mut self, on: bool)
        ensures
            final(self)@ == (SampleView { sync: on, ..old(self)@ }),
            final(self).wf() == old(self).wf(),
    {
        self.sync = on;
    }

    pub fn is_preroll(&self) -> (r: bool)
        ensures
            r == self@.preroll,
    {
        self.preroll
    }

    pub fn set_preroll(&mut self, on: bool)
        ensures
            final(self)@ == (SampleView { preroll: on, ..old(self)@ }),
            final(self).wf() == old(self).wf(),
    {
        self.preroll = on;
    }

    pub fn is_discontinuity(&self) -> (r: bool)
        ensures
            r == self@.discontinuity,
    {
        self.discontinuity
    }

    pub fn set_discontinuity(&mut self, on: bool)
        ensures
            final(self)@ == (SampleView { discontinuity: on, ..old(self)@ }),
            final(self).wf() == old(self).wf(),
    {
        self.discontinuity = on;
    }

    /// The length of the data in the sample.
    pub fn actual_len(&self) -> (r: i32)
        ensures
            r == self@.actual,
    {
        self.actual
    }

    /// Sets the length of the data (`SetActualDataLength`); a length below
    /// zero or beyond the usable size is refused and changes nothing.
    pub fn set_actual_len(&mut self, len: i32) -> (r: bool)
        requires
            old(self).wf(),
        ensures
            final(self).wf(),
            r == (0 <= len && len <= usable(old(self)@)),
            final(self)@ == (if r {
                SampleView { actual: len, ..old(self)@ }
            } else {
                old(self)@
            }),
    {
        let size = (self.total - self.prefix) as i32;
        if len < 0 || len > size {
            return false;
        }
        self.actual = len;
        true
    }
}

/// The output pin's own allocator: its properties and whether it is
/// committed.
pub struct MemAllocator {
    pub props: AllocProps,
    pub committed: bool,
}

impl MemAllocator {
    /// A decommitted allocator of one empty buffer.
    pub fn new() -> (r: MemAllocator)
        ensures
            r.props == (AllocProps { buffers: 1, size: 0, align: 1, prefix: 0 }),
            !r.committed,
    {
        MemAllocator { props: AllocProps { buffers: 1, size: 0, align: 1, prefix: 0 }, committed: false }
    }

    /// Takes a request (`SetProperties`) and returns the properties settled
    /// on.
    pub fn set_properties(&mut self, req: AllocProps) -> (r: AllocProps)
        requires
            at_least_one(req.size) + at_least_one(req.align) <= i32::MAX,
        ensures
            r == settled(req),
            final(self).props == r,
            final(self).committed == old(self).committed,
    {
        let mut p = req;
        if p.align < 1 {
            p.align = 1;
        }
        if p.buffers < 1 {
            p.buffers = 1;
        }
        if p.size < 1 {
            p.size = 1;
        }
        proof {
            let sz: int = p.size as int;
            let al: int = p.align as int;
            let q: int = (sz + al - 1) / al;
            assert(0 <= q * al <= sz + al - 1) by (nonlinear_arith)
                requires
                    al >= 1,
                    sz >= 1,
                    q == (sz + al - 1) / al,
            ;
        }
        let aligned = (p.size + p.align - 1) / p.align * p.align;
        p.size = aligned;
        self.props = p;
        p
    }

    pub fn commit(&mut self)
        ensures
            final(self).committed,
            final(self).props == old(self).props,
    {
        self.committed = true;
    }

    pub fn decommit(&mut self)
        ensures
            !final(self).committed,
            final(self).props == old(self).props,
    {
        self.committed = false;
    }

    /// A new sample (`GetBuffer`) sized by the properties, with the times
    /// asked for when both are given, and not a sync point when the flags
    /// say so; refused while the allocator is not committed.
    pub fn get_buffer(&self, start: Option<i64>, stop: Option<i64>, flags: u32) -> (r: Result<
        MediaSample,
        AllocError,
    >)
        requires
            0 <= self.props.prefix <= self.props.size,
        ensures
            match r {
                Err(e) => !self.committed && e == AllocError::NotCommitted,
                Ok(s) => {
                    &&& self.committed
                    &&& s.wf()
                    &&& s@.total == self.props.size
                    &&& s@.prefix == self.props.prefix
                    &&& s@.actual == 0
                    &&& s@.preroll == false
                    &&& s@.discontinuity == false
                    &&& (if start is Some && stop is Some {
                        s@.start == start && s@.stop == stop
                    } else {
                        s@.start is None && s@.stop is None
                    })
                    &&& s@.sync == (flags & AM_GBF_NOTASYNCPOINT == 0)
                },
            },
    {
        if !self.committed {
            return Err(AllocError::NotCommitted);
        }
        let mut s = MediaSample::new(self.props.size as usize, self.props.prefix as usize);
        if start.is_some() && stop.is_some() {
            s.set_time(start, stop);
        }
        if flags & AM_GBF_NOTASYNCPOINT != 0 {
            s.set_sync_point(false);
        }
        Ok(s)
    }
}

} // verus!
