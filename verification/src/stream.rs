//! The byte stream that a conversation with a server runs over, held in
//! memory.

use crate::model::outcome;
use crate::model::Error;
use crate::model::Fault;
use crate::text::copy_range;
use crate::text::find_from;
use crate::text::first_sep;
use crate::text::is_text;
use crate::text::lemma_first_sep_bounds;
use crate::text::LF;
use vstd::prelude::*;
use vstd::utf8::valid_utf8;

verus! {

/// The state of a stream: every byte it holds, how many of them lie behind
/// the position, and whether a read has run into the end.
pub struct Wire {
    pub data: Seq<u8>,
    pub pos: nat,
    pub starved: bool,
}

impl Wire {
    /// The bytes from the position on.
    pub open spec fn rest(self) -> Seq<u8> {
        if self.pos <= self.data.len() {
            self.data.skip(self.pos as int)
        } else {
            Seq::empty()
        }
    }

    /// The length of the next line: up to and including the first line feed,
    /// or all that is left when there is none.
    pub open spec fn line_len(self) -> nat {
        let r = self.rest();
        let i = first_sep(r, LF);
        if 0 <= i < r.len() {
            (i + 1) as nat
        } else {
            r.len()
        }
    }

    /// Reading one line: the line with its terminator, and the stream after
    /// it. A line that the end of the stream cut short is returned as it is
    /// and leaves the stream starved. Bytes that are not text are consumed
    /// and refused.
    pub open spec fn read_line(self) -> (Result<Seq<u8>, Fault>, Wire) {
        let n = self.line_len();
        let line = self.rest().take(n as int);
        let next = Wire {
            data: self.data,
            pos: self.pos + n,
            starved: self.starved || !(n > 0 && line[n - 1] == LF),
        };
        if valid_utf8(line) {
            (Ok(line), next)
        } else {
            (Err(Fault::InvalidData), next)
        }
    }

    /// Reading exactly `n` bytes. When fewer are left, all of them are
    /// consumed, the read fails and the stream is starved.
    pub open spec fn read_exact(self, n: nat) -> (Result<Seq<u8>, Fault>, Wire) {
        let r = self.rest();
        if n <= r.len() {
            (
                Ok(r.take(n as int)),
                Wire { data: self.data, pos: self.pos + n, starved: self.starved },
            )
        } else {
            (
                Err(Fault::UnexpectedEof),
                Wire { data: self.data, pos: self.pos + r.len(), starved: true },
            )
        }
    }

    /// Reading a data block of `n` bytes and the two bytes that frame it.
    /// The framing bytes are consumed and dropped, whatever they are.
    pub open spec fn read_block(self, n: nat) -> (Result<Seq<u8>, Fault>, Wire) {
        match self.read_exact(n + 2) {
            (Ok(bytes), next) => (Ok(bytes.take(n as int)), next),
            (Err(f), next) => (Err(f), next),
        }
    }

    /// Writing at the position: the bytes replace what was there, extend the
    /// stream where they reach beyond its end, and the position moves behind
    /// them.
    pub open spec fn write_all(self, bytes: Seq<u8>) -> Wire {
        let head = if self.pos <= self.data.len() {
            self.data.take(self.pos as int)
        } else {
            self.data
        };
        let end = head.len() + bytes.len();
        let tail = if end < self.data.len() {
            self.data.skip(end as int)
        } else {
            Seq::empty()
        };
        Wire { data: head + bytes + tail, pos: end as nat, starved: self.starved }
    }
}

/// Reading a line leaves the bytes of the stream as they are and takes the
/// line, and nothing else, off what is left.
pub proof fn lemma_read_line_takes(w: Wire)
    ensures
        w.read_line().1.data == w.data,
        w.read_line().1.rest().len() + w.line_len() == w.rest().len(),
        w.read_line().0 is Ok ==> w.read_line().0->Ok_0.len() == w.line_len(),
{
    lemma_first_sep_bounds(w.rest(), LF);
}

/// Reading a block never gives bytes back to the stream.
pub proof fn lemma_read_block_takes(w: Wire, n: nat)
    ensures
        w.read_block(n).1.data == w.data,
        w.read_block(n).1.rest().len() <= w.rest().len(),
{
}

/// An in-memory stream with one position for reading and writing.
pub struct Connection {
    data: Vec<u8>,
    pos: usize,
    starved: bool,
}

impl View for Connection {
    type V = Wire;

    closed spec fn view(&self) -> Wire {
        Wire {
            data: self.data@,
            pos: if self.pos <= self.data@.len() {
                self.pos as nat
            } else {
                self.data@.len()
            },
            starved: self.starved,
        }
    }
}

impl Connection {
    /// A stream over `data`, positioned at its start.
    pub fn new(data: Vec<u8>) -> (r: Self)
        ensures
            r@ == (Wire { data: data@, pos: 0, starved: false }),
    {
        Connection { data, pos: 0, starved: false }
    }

    /// How many bytes lie behind the position.
    pub fn position(&self) -> (r: usize)
        ensures
            r == self@.pos,
            r <= self@.data.len(),
    {
        if self.pos <= self.data.len() {
            self.pos
        } else {
            self.data.len()
        }
    }

    /// Whether a read has run into the end of the stream.
    pub fn is_starved(&self) -> (r: bool)
        ensures
            r == self@.starved,
    {
        self.starved
    }

    /// Every byte of the stream.
    pub fn bytes(&self) -> (r: &[u8])
        ensures
            r@ == self@.data,
    {
        self.data.as_slice()
    }

    /// Writes `bytes` at the position.
    pub fn write_all(&mut self, bytes: &[u8])
        ensures
            final(self)@ == old(self)@.write_all(bytes@),
    {
        let p = self.position();
        let mut next = copy_range(self.data.as_slice(), 0, p);
        next.extend_from_slice(bytes);
        let end = next.len();
        if end < self.data.len() {
            let tail = copy_range(self.data.as_slice(), end, self.data.len());
            next.extend_from_slice(tail.as_slice());
        }
        self.data = next;
        self.pos = end;
        assert(self@.data =~= old(self)@.write_all(bytes@).data);
    }

    /// Reads one line.
    pub fn read_line(&mut self) -> (r: Result<Vec<u8>, Error>)
        ensures
            (outcome(r), final(self)@) == old(self)@.read_line(),
    {
        let p = self.position();
        let len = self.data.len();
        let i = find_from(self.data.as_slice(), p, LF);
        let end = if i < len {
            i + 1
        } else {
            len
        };
        let line = copy_range(self.data.as_slice(), p, end);
        proof {
            let w = old(self)@;
            lemma_first_sep_bounds(w.rest(), LF);
            assert(w.rest().take(w.line_len() as int) =~= line@);
        }
        self.pos = end;
        if !(end > p && self.data[end - 1] == LF) {
            self.starved = true;
        }
        if is_text(line.as_slice()) {
            Ok(line)
        } else {
            Err(Error::InvalidData)
        }
    }

    /// Reads exactly `n` bytes.
    pub fn read_exact(&mut self, n: usize) -> (r: Result<Vec<u8>, Error>)
        ensures
            (outcome(r), final(self)@) == old(self)@.read_exact(n as nat),
    {
        let p = self.position();
        let len = self.data.len();
        if n <= len - p {
            let block = copy_range(self.data.as_slice(), p, p + n);
            self.pos = p + n;
            assert(old(self)@.rest().take(n as int) =~= block@);
            Ok(block)
        } else {
            self.pos = len;
            self.starved = true;
            Err(Error::UnexpectedEof)
        }
    }

    /// Reads a data block of `n` bytes and the two bytes that frame it.
    pub fn read_block(&mut self, n: usize) -> (r: Result<Vec<u8>, Error>)
        ensures
            (outcome(r), final(self)@) == old(self)@.read_block(n as nat),
    {
        let p = self.position();
        let len = self.data.len();
        if len - p >= 2 && n <= len - p - 2 {
            let block = copy_range(self.data.as_slice(), p, p + n);
            self.pos = p + n + 2;
            assert(old(self)@.rest().take(n + 2).take(n as int) =~= block@);
            Ok(block)
        } else {
            self.pos = len;
            self.starved = true;
            Err(Error::UnexpectedEof)
        }
    }
}

} // verus!
