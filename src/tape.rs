//! Instruction sources: the program text, and the bracket scans over it.
use vstd::prelude::*;
use vstd::string::StringSliceAdditionalSpecFns;

verus! {

/// The byte of `[`.
pub const OPEN_BRACKET: u8 = 0x5B;

/// The byte of `]`.
pub const CLOSE_BRACKET: u8 = 0x5D;

/// Where a forward scan that starts at index `i` with `depth` open loops
/// stops: just past the `]` that closes depth zero, or at the end.
pub open spec fn scan_forward(s: Seq<u8>, i: int, depth: nat) -> int
    decreases s.len() - i,
{
    if i < 0 || i >= s.len() {
        s.len() as int
    } else if s[i] == CLOSE_BRACKET {
        if depth == 0 {
            i + 1
        } else {
            scan_forward(s, i + 1, (depth - 1) as nat)
        }
    } else if s[i] == OPEN_BRACKET {
        scan_forward(s, i + 1, depth + 1)
    } else {
        scan_forward(s, i + 1, depth)
    }
}

/// Where a backward scan from index `i` (the next byte it sees is `s[i - 1]`)
/// stops: on the `[` that closes depth zero, or at the start.
pub open spec fn scan_backward(s: Seq<u8>, i: int, depth: nat) -> int
    decreases i,
{
    if i <= 0 || i > s.len() {
        0
    } else if s[i - 1] == OPEN_BRACKET {
        if depth == 0 {
            i - 1
        } else {
            scan_backward(s, i - 1, (depth - 1) as nat)
        }
    } else if s[i - 1] == CLOSE_BRACKET {
        scan_backward(s, i - 1, depth + 1)
    } else {
        scan_backward(s, i - 1, depth)
    }
}

/// A tape over a fixed byte string, read from a cursor.
pub struct SourceTape {
    source: Vec<u8>,
    index: usize,
}

impl SourceTape {
    pub closed spec fn bytes(&self) -> Seq<u8> {
        self.source@
    }

    /// The index of the next byte to be read.
    pub closed spec fn cursor(&self) -> int {
        self.index as int
    }

    pub open spec fn wf(&self) -> bool {
        0 <= self.cursor() <= self.bytes().len()
    }

    /// A tape over a copy of `bytes`, positioned at its start.
    pub fn from_bytes(bytes: &[u8]) -> (r: SourceTape)
        ensures
            r.wf(),
            r.bytes() == bytes@,
            r.cursor() == 0,
    {
        let mut source: Vec<u8> = Vec::new();
        let mut i: usize = 0;
        while i < bytes.len()
            invariant
                i <= bytes@.len(),
                source@ == bytes@.subrange(0, i as int),
            decreases bytes@.len() - i,
        {
            source.push(bytes[i]);
            i = i + 1;
            proof {
                assert(source@ =~= bytes@.subrange(0, i as int));
            }
        }
        proof {
            assert(source@ =~= bytes@);
        }
        SourceTape { source, index: 0 }
    }

    /// A tape over `source`, positioned at its start.
    pub fn from_vec(source: Vec<u8>) -> (r: SourceTape)
        ensures
            r.wf(),
            r.bytes() == source@,
            r.cursor() == 0,
    {
        SourceTape { source, index: 0 }
    }

    /// A tape over the bytes of a program text.
    pub fn from_source(source: &str) -> (r: SourceTape)
        ensures
            r.wf(),
            r.bytes() == source.spec_bytes(),
            r.cursor() == 0,
    {
        SourceTape::from_bytes(source.as_bytes())
    }

    /// The byte under the cursor, without moving.
    pub fn peek_next(&self) -> (r: Option<u8>)
        requires
            self.wf(),
        ensures
            r == if self.cursor() < self.bytes().len() {
                Some(self.bytes()[self.cursor()])
            } else {
                None::<u8>
            },
    {
        if self.index < self.source.len() {
            Some(self.source[self.index])
        } else {
            None
        }
    }

    /// Reads the byte under the cursor and moves past it; `None` at the end.
    pub fn next(&mut self) -> (r: Option<u8>)
        requires
            old(self).wf(),
        ensures
            final(self).wf(),
            final(self).bytes() == old(self).bytes(),
            old(self).cursor() < old(self).bytes().len() ==> r == Some(old(self).bytes()[old(self).cursor()])
                && final(self).cursor() == old(self).cursor() + 1,
            old(self).cursor() >= old(self).bytes().len() ==> (r is None) && *final(self) == *old(self),
    {
        if self.index < self.source.len() {
            let value = self.source[self.index];
            self.index = self.index + 1;
            Some(value)
        } else {
            None
        }
    }

    /// Steps the cursor back and returns the byte it now rests on; `None` at
    /// the start.
    pub fn prev(&mut self) -> (r: Option<u8>)
        requires
            old(self).wf(),
        ensures
            final(self).wf(),
            final(self).bytes() == old(self).bytes(),
            old(self).cursor() > 0 ==> r == Some(old(self).bytes()[old(self).cursor() - 1])
                && final(self).cursor() == old(self).cursor() - 1,
            old(self).cursor() == 0 ==> (r is None) && final(self).cursor() == 0,
    {
        if self.index > 0 {
            self.index = self.index - 1;
            Some(self.source[self.index])
        } else {
            None
        }
    }

    /// Reads forward until the `]` that matches an already-read `[`, and stops
    /// just past it (or at the end of the tape).
    pub fn skip_forward(&mut self)
        requires
            old(self).wf(),
        ensures
            final(self).wf(),
            final(self).bytes() == old(self).bytes(),
            final(self).cursor() == scan_forward(old(self).bytes(), old(self).cursor(), 0),
    {
        let ghost target = scan_forward(self.bytes(), self.cursor(), 0);
        let mut depth: usize = 0;
        loop
            invariant_except_break
                scan_forward(self.bytes(), self.cursor(), depth as nat) == target,
            invariant
                self.wf(),
                self.bytes() == old(self).bytes(),
                depth <= self.cursor(),
            ensures
                self.cursor() == target,
            decreases self.bytes().len() - self.cursor(),
        {
            match self.next() {
                None => {
                    break;
                },
                Some(b) => {
                    if b == CLOSE_BRACKET {
                        if depth == 0 {
                            break;
                        }
                        depth = depth - 1;
                    } else if b == OPEN_BRACKET {
                        depth = depth + 1;
                    }
                },
            }
        }
    }

    /// Steps back over the `]` just read, then on until the `[` that matches
    /// it, and stops on that `[` (or at the start of the tape).
    pub fn skip_backward(&mut self)
        requires
            old(self).wf(),
        ensures
            final(self).wf(),
            final(self).bytes() == old(self).bytes(),
            final(self).cursor() == if old(self).cursor() == 0 {
                0
            } else {
                scan_backward(old(self).bytes(), old(self).cursor() - 1, 0)
            },
    {
        if self.prev().is_none() {
            return ;
        }
        let ghost target = scan_backward(self.bytes(), self.cursor(), 0);
        let mut depth: usize = 0;
        let len = self.source.len();
        loop
            invariant_except_break
                scan_backward(self.bytes(), self.cursor(), depth as nat) == target,
            invariant
                self.wf(),
                self.bytes() == old(self).bytes(),
                len == self.bytes().len(),
                depth + self.cursor() <= len,
            ensures
                self.cursor() == target,
            decreases self.cursor(),
        {
            match self.prev() {
                None => {
                    break;
                },
                Some(b) => {
                    if b == OPEN_BRACKET {
                        if depth == 0 {
                            break;
                        }
                        depth = depth - 1;
                    } else if b == CLOSE_BRACKET {
                        depth = depth + 1;
                    }
                },
            }
        }
    }
}

} // verus!
