//! The position of a pin or media type enumerator over a fixed list.
use vstd::prelude::*;

verus! {

/// An enumerator's place in a list of `len` items.
#[derive(Clone, Copy, Debug)]
pub struct EnumCursor {
    len: usize,
    pos: usize,
}

impl EnumCursor {
    pub closed spec fn len_spec(&self) -> nat {
        self.len as nat
    }

    pub closed spec fn pos_spec(&self) -> nat {
        self.pos as nat
    }

    pub closed spec fn wf(&self) -> bool {
        self.pos <= self.len
    }

    /// At the start of a list of `len` items.
    pub fn new(len: usize) -> (r: EnumCursor)
        ensures
            r.wf(),
            r.len_spec() == len,
            r.pos_spec() == 0,
    {
        EnumCursor { len, pos: 0 }
    }

    pub fn position(&self) -> (r: usize)
        ensures
            r == self.pos_spec(),
    {
        self.pos
    }

    /// Hands out up to `count` items (`Next`): the index of the first and
    /// how many; the call succeeds fully (`S_OK`) when that is `count`.
    pub fn next(&mut self, count: u32) -> (r: (usize, u32))
        requires
            old(self).wf(),
        ensures
            final(self).wf(),
            final(self).len_spec() == old(self).len_spec(),
            r.0 == old(self).pos_spec(),
            r.1 as int == (if count as int <= old(self).len_spec() - old(self).pos_spec() {
                count as int
            } else {
                old(self).len_spec() - old(self).pos_spec()
            }),
            final(self).pos_spec() == old(self).pos_spec() + r.1,
    {
        let first = self.pos;
        let left = self.len - self.pos;
        let n: u32 = if (count as usize) <= left {
            count
        } else {
            left as u32
        };
        self.pos = self.pos + n as usize;
        (first, n)
    }

    /// Skips up to `count` items (`Skip`); `false` (`S_FALSE`) when
    /// something was to be skipped and the end is reached.
    pub fn skip(&mut self, count: u32) -> (r: bool)
        requires
            old(self).wf(),
        ensures
            final(self).wf(),
            final(self).len_spec() == old(self).len_spec(),
            final(self).pos_spec() == (if old(self).pos_spec() + count <= old(self).len_spec() {
                old(self).pos_spec() + count
            } else {
                old(self).len_spec() as int
            }),
            r == !(count > 0 && final(self).pos_spec() >= final(self).len_spec()),
    {
        let left = self.len - self.pos;
        if (count as usize) <= left {
            self.pos = self.pos + count as usize;
        } else {
            self.pos = self.len;
        }
        !(count > 0 && self.pos >= self.len)
    }

    /// Back to the first item (`Reset`).
    pub fn reset(&mut self)
        requires
            old(self).wf(),
        ensures
            final(self).wf(),
            final(self).len_spec() == old(self).len_spec(),
            final(self).pos_spec() == 0,
    {
        self.pos = 0;
    }
}

} // verus!
