use vstd::prelude::*;
use vstd::slice::slice_subrange;

verus! {

/// Size of the buffer in bytes.
pub const BUFFER_SIZE: usize = 8 * 1024;

/// The smaller of two lengths.
pub open spec fn min_len(a: nat, b: nat) -> nat {
    if a < b { a } else { b }
}

/// The storage of a `BufReader`: `BUFFER_SIZE` bytes, of which those from
/// the read position up to the end of the filled data are unread, with a
/// ghost record of every byte handed out.
struct Buffer {
    buf: Vec<u8>,
    /// current read position
    pos: usize,
    /// end of data in buffer
    cap: usize,
    /// every byte read out or consumed, in order
    taken: Ghost<Seq<u8>>,
}

impl Buffer {
    spec fn unread(self) -> Seq<u8> {
        self.buf@.subrange(self.pos as int, self.cap as int)
    }

    #[verifier::type_invariant]
    spec fn well_formed(self) -> bool {
        &&& self.buf@.len() == BUFFER_SIZE
        &&& self.pos <= self.cap
        &&& self.cap <= BUFFER_SIZE
    }
}

/// A buffer in front of a reader, standing in for `std::io::BufReader`.
///
/// The reader `R` is carried, not called: whoever drives the buffer reads
/// from `get_mut()` when `needs_fill()` says so and hands the bytes that came
/// back to `fill_buf`. The view of a `BufReader` is the sequence of bytes that
/// were filled in and not yet read or consumed.
///
/// The bytes taken in (`filled()`) are those handed out or skipped
/// (`taken()`) followed by the unread ones. Each operation states how it
/// changes both records: `fill_buf` appends to `filled()` only what it
/// takes in, `read` and `consume` append to `taken()` exactly the bytes
/// they hand out or skip, and nothing else changes either; so the bytes
/// come out in the order they went in, none lost or repeated. At most
/// `BUFFER_SIZE` bytes are unread.
pub struct BufReader<R> {
    inner: R,
    state: Buffer,
}

impl<R> View for BufReader<R> {
    type V = Seq<u8>;

    closed spec fn view(&self) -> Seq<u8> {
        self.state.unread()
    }
}

/// Bytes handed out or skipped, then the unread ones, are the bytes taken
/// in, in order; and no more than `BUFFER_SIZE` bytes are unread.
pub open spec fn in_order<R>(r: BufReader<R>) -> bool {
    &&& r.taken() + r@ == r.filled()
    &&& r@.len() <= BUFFER_SIZE
}

impl<R> BufReader<R> {
    /// The reader that this buffer stands in front of.
    pub closed spec fn source(self) -> R {
        self.inner
    }

    /// Every byte the buffer has taken in through `fill_buf`, in order:
    /// those handed out or skipped, then those still unread.
    pub closed spec fn filled(self) -> Seq<u8> {
        self.taken() + self@
    }

    /// Every byte the buffer has handed out through `read` or skipped
    /// through `consume`, in order.
    pub closed spec fn taken(self) -> Seq<u8> {
        self.state.taken@
    }

    /// Creates an empty buffer in front of `inner`.
    pub fn new(inner: R) -> (r: BufReader<R>)
        ensures
            r.source() == inner,
            r@ == Seq::<u8>::empty(),
            r.filled() == Seq::<u8>::empty(),
            r.taken() == Seq::<u8>::empty(),
            in_order(r),
    {
        let state = Buffer {
            buf: vec![0u8; BUFFER_SIZE],
            pos: 0,
            cap: 0,
            taken: Ghost(Seq::empty()),
        };
        let r = BufReader { inner, state };
        assert(r@ =~= Seq::<u8>::empty());
        assert(r.filled() =~= Seq::<u8>::empty());
        r
    }

    /// Gives back the inner reader; unread buffered bytes are dropped.
    pub fn into_inner(self) -> (r: R)
        ensures
            r == self.source(),
    {
        self.inner
    }

    /// A shared reference to the inner reader.
    pub fn get_ref(&self) -> (r: &R)
        ensures
            *r == self.source(),
    {
        &self.inner
    }

    /// A mutable reference to the inner reader; the buffered bytes stay as they are.
    pub fn get_mut(&mut self) -> (r: &mut R)
        ensures
            *r == old(self).source(),
            final(self).source() == *final(r),
            final(self)@ == old(self)@,
            final(self).filled() == old(self).filled(),
            final(self).taken() == old(self).taken(),
            in_order(*final(self)),
    {
        proof {
            use_type_invariant(&self.state);
        }
        &mut self.inner
    }

    /// Whether every filled byte has been read, so that the next read has to
    /// go to the inner reader first.
    pub fn needs_fill(&self) -> (b: bool)
        ensures
            b == (self@.len() == 0),
            in_order(*self),
    {
        proof {
            use_type_invariant(&self.state);
        }
        self.state.pos >= self.state.cap
    }

    /// Takes `data`, what the inner reader returned, as the new content of
    /// the buffer when every earlier byte has been read; when unread bytes
    /// remain, the buffer is left as it is.
    pub fn fill_buf(&mut self, data: &[u8])
        requires
            data@.len() <= BUFFER_SIZE,
        ensures
            final(self).source() == old(self).source(),
            old(self)@.len() == 0 ==> final(self)@ == data@,
            old(self)@.len() != 0 ==> final(self)@ == old(self)@,
            old(self)@.len() == 0 ==> final(self).filled() == old(self).filled() + data@,
            old(self)@.len() != 0 ==> final(self).filled() == old(self).filled(),
            final(self).taken() == old(self).taken(),
            in_order(*final(self)),
    {
        proof {
            use_type_invariant(&self.state);
        }
        if self.state.pos >= self.state.cap {
            let ghost old_view = self@;
            assert(old_view =~= Seq::<u8>::empty());
            let n = data.len();
            let mut i: usize = 0;
            while i < n
                invariant
                    n == data@.len(),
                    n <= BUFFER_SIZE,
                    i <= n,
                    self.inner == old(self).inner,
                    self.state.taken == old(self).state.taken,
                    self.state.pos == self.state.cap,
                    forall|j: int| 0 <= j < i ==> self.state.buf@[j] == data@[j],
                decreases n - i,
            {
                proof {
                    use_type_invariant(&self.state);
                }
                self.state.buf[i] = data[i];
                i = i + 1;
            }
            proof {
                use_type_invariant(&self.state);
            }
            self.state.pos = 0;
            self.state.cap = n;
            assert(self@ =~= data@);
            assert(self.taken() + data@ =~= old(self).filled() + data@);
        }
        proof {
            use_type_invariant(&self.state);
        }
    }

    /// The unread part of the buffer.
    pub fn buffer(&self) -> (s: &[u8])
        ensures
            s@ == self@,
            in_order(*self),
    {
        proof {
            use_type_invariant(&self.state);
        }
        slice_subrange(self.state.buf.as_slice(), self.state.pos, self.state.cap)
    }

    /// Copies as many unread bytes as fit into `out` to its front, and
    /// returns their number; `0` means the buffer holds nothing unread.
    pub fn read(&mut self, out: &mut [u8]) -> (n: usize)
        ensures
            final(self).source() == old(self).source(),
            n == min_len(old(out)@.len(), old(self)@.len()),
            final(out)@ == old(self)@.take(n as int) + old(out)@.skip(n as int),
            final(self)@ == old(self)@.skip(n as int),
            final(self).filled() == old(self).filled(),
            final(self).taken() == old(self).taken() + old(self)@.take(n as int),
            in_order(*final(self)),
    {
        proof {
            use_type_invariant(&self.state);
        }
        let ghost before = self@;
        if self.state.pos >= self.state.cap {
            assert(out@ =~= before.take(0) + out@.skip(0));
            assert(before =~= before.skip(0));
            assert(self.state.taken@ =~= self.state.taken@ + before.take(0));
            return 0;
        }
        let avail = self.state.cap - self.state.pos;
        let amt = if out.len() < avail { out.len() } else { avail };
        let pos = self.state.pos;
        let mut i: usize = 0;
        while i < amt
            invariant
                *self == *old(self),
                self.state.buf@.len() == BUFFER_SIZE,
                pos == self.state.pos,
                amt <= out@.len(),
                pos + amt <= self.state.cap,
                i <= amt,
                out@.len() == old(out)@.len(),
                forall|j: int| 0 <= j < i ==> out@[j] == self.state.buf@[pos + j],
                forall|j: int| amt <= j < out@.len() ==> out@[j] == old(out)@[j],
            decreases amt - i,
        {
            proof {
                use_type_invariant(&self.state);
            }
            out[i] = self.state.buf[pos + i];
            i = i + 1;
        }
        self.advance(amt);
        assert(out@ =~= before.take(amt as int) + old(out)@.skip(amt as int));
        amt
    }

    /// Marks `amt` unread bytes as read; asking for more than the buffer
    /// holds empties it.
    pub fn consume(&mut self, amt: usize)
        ensures
            final(self).source() == old(self).source(),
            final(self)@ == old(self)@.skip(min_len(amt as nat, old(self)@.len()) as int),
            final(self).filled() == old(self).filled(),
            final(self).taken() == old(self).taken() + old(self)@.take(min_len(amt as nat, old(self)@.len()) as int),
            in_order(*final(self)),
    {
        proof {
            use_type_invariant(&self.state);
        }
        let k = if amt >= self.state.cap - self.state.pos { self.state.cap - self.state.pos } else { amt };
        self.advance(k);
    }

    /// Moves the read position `k` unread bytes on, recording them as taken.
    fn advance(&mut self, k: usize)
        requires
            k <= old(self)@.len(),
        ensures
            final(self).source() == old(self).source(),
            final(self)@ == old(self)@.skip(k as int),
            final(self).filled() == old(self).filled(),
            final(self).taken() == old(self).taken() + old(self)@.take(k as int),
            in_order(*final(self)),
    {
        proof {
            use_type_invariant(&self.state);
        }
        let ghost before = self@;
        self.state.taken = Ghost(self.state.taken@ + before.take(k as int));
        self.state.pos = self.state.pos + k;
        assert(self@ =~= before.skip(k as int));
        assert(self.filled() =~= old(self).filled());
        proof {
            use_type_invariant(&self.state);
        }
    }
}

/// The bytes taken in are those handed out or skipped followed by those
/// still unread; so once every byte taken in has been read, the reads have
/// handed out exactly the bytes taken in, in order.
pub proof fn stream_order<R>(r: BufReader<R>)
    ensures
        r.taken() + r@ == r.filled(),
        r@.len() == 0 ==> r.taken() == r.filled(),
{
    if r@.len() == 0 {
        assert(r.taken() + r@ =~= r.taken());
    }
}

/// A read hands out the front of the unread bytes and keeps the rest: no
/// byte is lost or handed out twice.
pub proof fn read_conserves(unread: Seq<u8>, out_len: nat)
    ensures
        ({
            let n = min_len(out_len, unread.len());
            unread.take(n as int) + unread.skip(n as int) == unread
        }),
{
    let n = min_len(out_len, unread.len());
    assert(unread.take(n as int) + unread.skip(n as int) =~= unread);
}

/// Two successive reads into buffers of lengths `a` and `b` hand out what
/// one read into a buffer of length `a + b` does, and leave the same bytes
/// unread.
pub proof fn reads_compose(unread: Seq<u8>, a: nat, b: nat)
    ensures
        ({
            let n1 = min_len(a, unread.len());
            let after = unread.skip(n1 as int);
            let n2 = min_len(b, after.len());
            let n = min_len(a + b, unread.len());
            &&& n1 + n2 == n
            &&& unread.take(n1 as int) + after.take(n2 as int) == unread.take(n as int)
            &&& after.skip(n2 as int) == unread.skip(n as int)
        }),
{
    let n1 = min_len(a, unread.len());
    let after = unread.skip(n1 as int);
    let n2 = min_len(b, after.len());
    let n = min_len(a + b, unread.len());
    assert(unread.take(n1 as int) + after.take(n2 as int) =~= unread.take(n as int));
    assert(after.skip(n2 as int) =~= unread.skip(n as int));
}

} // verus!
